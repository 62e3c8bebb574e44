//! Mapping catalog model names to the tags a local runtime serves them
//! under, and deciding whether a model is installed.
//!
//! The network calls that list installed models live outside the library;
//! the callers hand in the installed tag set as plain strings.

use vstd::prelude::*;
use vstd::string::StrSliceExecFns;
use vstd::string::StringExecFns;

use crate::strutil::{after_last_slash, remove_all, spec_after_last_slash, spec_lower,
    spec_remove_all, str_eq, string_views, to_ascii_lower};

verus! {

/// The index of the first `':'` in `s`, or -1 when there is none.
pub open spec fn spec_first_colon(s: Seq<char>) -> int
    decreases s.len(),
{
    if s.len() == 0 {
        -1
    } else if s[0] == ':' {
        0
    } else {
        let r = spec_first_colon(s.skip(1));
        if r == -1 {
            -1
        } else {
            r + 1
        }
    }
}

/// The family stem of a runtime tag: what stands before the first `':'`,
/// or the whole tag without one.
pub open spec fn spec_family(s: Seq<char>) -> Seq<char> {
    if spec_first_colon(s) == -1 {
        s
    } else {
        s.take(spec_first_colon(s))
    }
}

proof fn lemma_first_colon_at(s: Seq<char>, i: int)
    requires
        0 <= i < s.len(),
        s[i] == ':',
        forall|k: int| 0 <= k < i ==> s[k] != ':',
    ensures
        spec_first_colon(s) == i,
    decreases i,
{
    if i > 0 {
        assert(s.skip(1)[i - 1] == s[i]);
        assert forall|k: int| 0 <= k < i - 1 implies s.skip(1)[k] != ':' by {
            assert(s.skip(1)[k] == s[k + 1]);
        }
        lemma_first_colon_at(s.skip(1), i - 1);
    }
}

proof fn lemma_first_colon_none(s: Seq<char>)
    requires
        forall|k: int| 0 <= k < s.len() ==> s[k] != ':',
    ensures
        spec_first_colon(s) == -1,
    decreases s.len(),
{
    if s.len() > 0 {
        assert forall|k: int| 0 <= k < s.skip(1).len() implies s.skip(1)[k] != ':' by {
            assert(s.skip(1)[k] == s[k + 1]);
        }
        lemma_first_colon_none(s.skip(1));
    }
}

/// The family stem of a runtime tag, before the first `':'`.
pub fn tag_family<'a>(s: &'a str) -> (r: &'a str)
    ensures
        r@ == spec_family(s@),
{
    let n = s.unicode_len();
    let mut i: usize = 0;
    while i < n
        invariant
            i <= n,
            n == s@.len(),
            forall|k: int| 0 <= k < i ==> s@[k] != ':',
        decreases n - i,
    {
        if s.get_char(i) == ':' {
            proof {
                lemma_first_colon_at(s@, i as int);
            }
            let r = s.substring_char(0, i);
            proof {
                assert(r@ =~= s@.take(i as int));
            }
            return r;
        }
        i = i + 1;
    }
    proof {
        lemma_first_colon_none(s@);
    }
    s
}

/// The matching entries one reported runtime tag contributes: the tag
/// and its family stem, both lowercased (ASCII).
pub open spec fn spec_tag_entries(name: Seq<char>) -> Seq<Seq<char>> {
    seq![spec_lower(name), spec_lower(spec_family(name))]
}

/// The normalised installed set a runtime's reported tags yield: for each
/// tag, its lowercased form and its lowercased family stem, in order.
/// Repeats are harmless — membership is all that matters downstream.
pub open spec fn spec_normalized_tags(names: Seq<Seq<char>>) -> Seq<Seq<char>>
    decreases names.len(),
{
    if names.len() == 0 {
        Seq::empty()
    } else {
        spec_tag_entries(names[0]) + spec_normalized_tags(names.skip(1))
    }
}

proof fn lemma_normalized_tags_push(names: Seq<Seq<char>>, n: Seq<char>)
    ensures
        spec_normalized_tags(names.push(n)) == spec_normalized_tags(names) + spec_tag_entries(n),
    decreases names.len(),
{
    if names.len() == 0 {
        assert(names.push(n)[0] == n);
        assert(names.push(n).skip(1) =~= names);
        assert(spec_normalized_tags(names) + spec_tag_entries(n) =~= spec_tag_entries(n)
            + Seq::<Seq<char>>::empty());
        assert(spec_tag_entries(n) + Seq::<Seq<char>>::empty() =~= spec_tag_entries(n));
    } else {
        assert(names.push(n)[0] == names[0]);
        assert(names.push(n).skip(1) =~= names.skip(1).push(n));
        lemma_normalized_tags_push(names.skip(1), n);
        assert((spec_tag_entries(names[0]) + spec_normalized_tags(names.skip(1)))
            + spec_tag_entries(n) =~= spec_tag_entries(names[0]) + (spec_normalized_tags(
            names.skip(1),
        ) + spec_tag_entries(n)));
    }
}

/// Normalise a runtime's reported model tags for installed matching:
/// each tag lowercased, plus its lowercased family stem (the part before
/// the first `':'`), so fuzzy family matches work.
pub fn normalize_installed_tags(names: &Vec<String>) -> (r: Vec<String>)
    ensures
        string_views(r@) == spec_normalized_tags(string_views(names@)),
{
    let ghost nv = string_views(names@);
    let mut out: Vec<String> = Vec::new();
    let mut i: usize = 0;
    proof {
        assert(string_views(out@) =~= spec_normalized_tags(nv.take(0)));
    }
    while i < names.len()
        invariant
            nv == string_views(names@),
            i <= names@.len(),
            string_views(out@) == spec_normalized_tags(nv.take(i as int)),
        decreases names@.len() - i,
    {
        let ghost out0 = out@;
        let name = names[i].as_str();
        out.push(to_ascii_lower(name));
        out.push(to_ascii_lower(tag_family(name)));
        proof {
            assert(nv[i as int] == names@[i as int]@);
            assert(string_views(out@) =~= string_views(out0) + spec_tag_entries(nv[i as int]));
            lemma_normalized_tags_push(nv.take(i as int), nv[i as int]);
            assert(nv.take(i + 1) =~= nv.take(i as int).push(nv[i as int]));
        }
        i = i + 1;
    }
    proof {
        assert(nv.take(names@.len() as int) =~= nv);
    }
    out
}

/// The repository part of a catalog name ("org/repo"), lowercased.
pub open spec fn spec_repo(hf: Seq<char>) -> Seq<char> {
    spec_lower(spec_after_last_slash(hf))
}

/// The repository name with common suffixes removed.
pub open spec fn spec_strip(repo: Seq<char>) -> Seq<char> {
    spec_remove_all(
        spec_remove_all(spec_remove_all(spec_remove_all(repo, "-instruct"@), "-chat"@), "-hf"@),
        "-it"@,
    )
}

/// The authoritative repository-to-tag mapping, checked before any
/// fallback guessing.
pub open spec fn spec_mapping(repo: Seq<char>) -> Option<Seq<char>> {
    if repo == "llama-3.3-70b-instruct"@ {
        Some("llama3.3:70b"@)
    } else if repo == "llama-3.2-11b-vision-instruct"@ {
        Some("llama3.2-vision:11b"@)
    } else if repo == "llama-3.2-3b"@ {
        Some("llama3.2:3b"@)
    } else if repo == "llama-3.2-1b"@ {
        Some("llama3.2:1b"@)
    } else if repo == "llama-3.1-405b-instruct"@ {
        Some("llama3.1:405b"@)
    } else if repo == "llama-3.1-70b-instruct"@ {
        Some("llama3.1:70b"@)
    } else if repo == "llama-3.1-8b-instruct"@ {
        Some("llama3.1:8b"@)
    } else if repo == "llama-3.1-8b"@ {
        Some("llama3.1:8b"@)
    } else if repo == "codellama-34b-instruct-hf"@ {
        Some("codellama:34b"@)
    } else if repo == "codellama-13b-instruct-hf"@ {
        Some("codellama:13b"@)
    } else if repo == "codellama-7b-instruct-hf"@ {
        Some("codellama:7b"@)
    } else if repo == "gemma-3-12b-it"@ {
        Some("gemma3:12b"@)
    } else if repo == "gemma-2-27b-it"@ {
        Some("gemma2:27b"@)
    } else if repo == "gemma-2-9b-it"@ {
        Some("gemma2:9b"@)
    } else if repo == "gemma-2-2b-it"@ {
        Some("gemma2:2b"@)
    } else if repo == "phi-4"@ {
        Some("phi4"@)
    } else if repo == "phi-3.5-mini-instruct"@ {
        Some("phi3.5"@)
    } else if repo == "phi-3-mini-4k-instruct"@ {
        Some("phi3"@)
    } else if repo == "phi-3-medium-14b-instruct"@ {
        Some("phi3:14b"@)
    } else if repo == "orca-2-7b"@ {
        Some("orca2:7b"@)
    } else if repo == "orca-2-13b"@ {
        Some("orca2:13b"@)
    } else if repo == "mistral-7b-instruct-v0.3"@ {
        Some("mistral:7b"@)
    } else if repo == "mistral-nemo-instruct-2407"@ {
        Some("mistral-nemo"@)
    } else if repo == "mistral-small-24b-instruct-2501"@ {
        Some("mistral-small:24b"@)
    } else if repo == "mixtral-8x7b-instruct-v0.1"@ {
        Some("mixtral:8x7b"@)
    } else if repo == "ministral-8b-instruct-2410"@ {
        Some("ministral:8b"@)
    } else if repo == "qwen2.5-72b-instruct"@ {
        Some("qwen2.5:72b"@)
    } else if repo == "qwen2.5-32b-instruct"@ {
        Some("qwen2.5:32b"@)
    } else if repo == "qwen2.5-14b-instruct"@ {
        Some("qwen2.5:14b"@)
    } else if repo == "qwen2.5-7b-instruct"@ {
        Some("qwen2.5:7b"@)
    } else if repo == "qwen3-32b"@ {
        Some("qwen3:32b"@)
    } else if repo == "qwen3-8b"@ {
        Some("qwen3:8b"@)
    } else if repo == "deepseek-v3"@ {
        Some("deepseek-v3"@)
    } else if repo == "deepseek-r1-distill-qwen-32b"@ {
        Some("deepseek-r1:32b"@)
    } else if repo == "deepseek-r1-distill-qwen-7b"@ {
        Some("deepseek-r1:7b"@)
    } else if repo == "deepseek-coder-v2-lite-instruct"@ {
        Some("deepseek-coder-v2:16b"@)
    } else if repo == "tinyllama-1.1b-chat-v1.0"@ {
        Some("tinyllama"@)
    } else if repo == "stablelm-2-1_6b-chat"@ {
        Some("stablelm2:1.6b"@)
    } else if repo == "yi-6b-chat"@ {
        Some("yi:6b"@)
    } else if repo == "yi-34b-chat"@ {
        Some("yi:34b"@)
    } else if repo == "starcoder2-7b"@ {
        Some("starcoder2:7b"@)
    } else if repo == "starcoder2-15b"@ {
        Some("starcoder2:15b"@)
    } else if repo == "falcon-7b-instruct"@ {
        Some("falcon:7b"@)
    } else if repo == "zephyr-7b-beta"@ {
        Some("zephyr:7b"@)
    } else if repo == "c4ai-command-r-v01"@ {
        Some("command-r"@)
    } else if repo == "nous-hermes-2-mixtral-8x7b-dpo"@ {
        Some("nous-hermes2-mixtral:8x7b"@)
    } else if repo == "nomic-embed-text-v1.5"@ {
        Some("nomic-embed-text"@)
    } else if repo == "bge-large-en-v1.5"@ {
        Some("bge-large"@)
    } else {
        None
    }
}

/// The tag candidates for a catalog name: the authoritative mapping when
/// the repository name is known, else the suffix-stripped name and the
/// plain name. Never empty.
pub open spec fn spec_candidates(hf: Seq<char>) -> Seq<Seq<char>> {
    let repo = spec_repo(hf);
    match spec_mapping(repo) {
        Some(tag) => seq![tag],
        None => seq![spec_strip(repo), repo],
    }
}

fn mapping_lookup(repo: &str) -> (r: Option<&'static str>)
    ensures
        match r {
            Some(t) => spec_mapping(repo@) == Some(t@),
            None => spec_mapping(repo@) is None,
        },
{
    if str_eq(repo, "llama-3.3-70b-instruct") {
        Some("llama3.3:70b")
    } else if str_eq(repo, "llama-3.2-11b-vision-instruct") {
        Some("llama3.2-vision:11b")
    } else if str_eq(repo, "llama-3.2-3b") {
        Some("llama3.2:3b")
    } else if str_eq(repo, "llama-3.2-1b") {
        Some("llama3.2:1b")
    } else if str_eq(repo, "llama-3.1-405b-instruct") {
        Some("llama3.1:405b")
    } else if str_eq(repo, "llama-3.1-70b-instruct") {
        Some("llama3.1:70b")
    } else if str_eq(repo, "llama-3.1-8b-instruct") {
        Some("llama3.1:8b")
    } else if str_eq(repo, "llama-3.1-8b") {
        Some("llama3.1:8b")
    } else if str_eq(repo, "codellama-34b-instruct-hf") {
        Some("codellama:34b")
    } else if str_eq(repo, "codellama-13b-instruct-hf") {
        Some("codellama:13b")
    } else if str_eq(repo, "codellama-7b-instruct-hf") {
        Some("codellama:7b")
    } else if str_eq(repo, "gemma-3-12b-it") {
        Some("gemma3:12b")
    } else if str_eq(repo, "gemma-2-27b-it") {
        Some("gemma2:27b")
    } else if str_eq(repo, "gemma-2-9b-it") {
        Some("gemma2:9b")
    } else if str_eq(repo, "gemma-2-2b-it") {
        Some("gemma2:2b")
    } else if str_eq(repo, "phi-4") {
        Some("phi4")
    } else if str_eq(repo, "phi-3.5-mini-instruct") {
        Some("phi3.5")
    } else if str_eq(repo, "phi-3-mini-4k-instruct") {
        Some("phi3")
    } else if str_eq(repo, "phi-3-medium-14b-instruct") {
        Some("phi3:14b")
    } else if str_eq(repo, "orca-2-7b") {
        Some("orca2:7b")
    } else if str_eq(repo, "orca-2-13b") {
        Some("orca2:13b")
    } else if str_eq(repo, "mistral-7b-instruct-v0.3") {
        Some("mistral:7b")
    } else if str_eq(repo, "mistral-nemo-instruct-2407") {
        Some("mistral-nemo")
    } else if str_eq(repo, "mistral-small-24b-instruct-2501") {
        Some("mistral-small:24b")
    } else if str_eq(repo, "mixtral-8x7b-instruct-v0.1") {
        Some("mixtral:8x7b")
    } else if str_eq(repo, "ministral-8b-instruct-2410") {
        Some("ministral:8b")
    } else if str_eq(repo, "qwen2.5-72b-instruct") {
        Some("qwen2.5:72b")
    } else if str_eq(repo, "qwen2.5-32b-instruct") {
        Some("qwen2.5:32b")
    } else if str_eq(repo, "qwen2.5-14b-instruct") {
        Some("qwen2.5:14b")
    } else if str_eq(repo, "qwen2.5-7b-instruct") {
        Some("qwen2.5:7b")
    } else if str_eq(repo, "qwen3-32b") {
        Some("qwen3:32b")
    } else if str_eq(repo, "qwen3-8b") {
        Some("qwen3:8b")
    } else if str_eq(repo, "deepseek-v3") {
        Some("deepseek-v3")
    } else if str_eq(repo, "deepseek-r1-distill-qwen-32b") {
        Some("deepseek-r1:32b")
    } else if str_eq(repo, "deepseek-r1-distill-qwen-7b") {
        Some("deepseek-r1:7b")
    } else if str_eq(repo, "deepseek-coder-v2-lite-instruct") {
        Some("deepseek-coder-v2:16b")
    } else if str_eq(repo, "tinyllama-1.1b-chat-v1.0") {
        Some("tinyllama")
    } else if str_eq(repo, "stablelm-2-1_6b-chat") {
        Some("stablelm2:1.6b")
    } else if str_eq(repo, "yi-6b-chat") {
        Some("yi:6b")
    } else if str_eq(repo, "yi-34b-chat") {
        Some("yi:34b")
    } else if str_eq(repo, "starcoder2-7b") {
        Some("starcoder2:7b")
    } else if str_eq(repo, "starcoder2-15b") {
        Some("starcoder2:15b")
    } else if str_eq(repo, "falcon-7b-instruct") {
        Some("falcon:7b")
    } else if str_eq(repo, "zephyr-7b-beta") {
        Some("zephyr:7b")
    } else if str_eq(repo, "c4ai-command-r-v01") {
        Some("command-r")
    } else if str_eq(repo, "nous-hermes-2-mixtral-8x7b-dpo") {
        Some("nous-hermes2-mixtral:8x7b")
    } else if str_eq(repo, "nomic-embed-text-v1.5") {
        Some("nomic-embed-text")
    } else if str_eq(repo, "bge-large-en-v1.5") {
        Some("bge-large")
    } else {
        None
    }
}

/// Map a catalog model name (e.g. "meta-llama/Llama-3.1-8B-Instruct") to
/// the runtime tags that may serve it (e.g. "llama3.1:8b"), best match
/// first. Known repositories map authoritatively; for the rest, plausible
/// candidates are generated by stripping common suffixes.
pub fn hf_name_to_ollama_candidates(hf_name: &str) -> (r: Vec<String>)
    ensures
        r@.map_values(|s: String| s@) == spec_candidates(hf_name@),
        r@.len() >= 1,
{
    let repo = to_ascii_lower(after_last_slash(hf_name));
    let mut out: Vec<String> = Vec::new();
    match mapping_lookup(repo.as_str()) {
        Some(tag) => {
            out.push(tag.to_owned());
            proof {
                assert(out@.map_values(|s: String| s@) =~= spec_candidates(hf_name@));
            }
        }
        None => {
            proof {
                reveal_strlit("-instruct");
                reveal_strlit("-chat");
                reveal_strlit("-hf");
                reveal_strlit("-it");
            }
            let s1 = remove_all(repo.as_str(), "-instruct");
            let s2 = remove_all(s1.as_str(), "-chat");
            let s3 = remove_all(s2.as_str(), "-hf");
            let stripped = remove_all(s3.as_str(), "-it");
            out.push(stripped);
            out.push(repo);
            proof {
                assert(out@.map_values(|s: String| s@) =~= spec_candidates(hf_name@));
            }
        }
    }
    out
}

/// Whether any tag candidate for a catalog name is in the installed set.
pub open spec fn spec_is_installed(hf: Seq<char>, installed: Seq<Seq<char>>) -> bool {
    exists|i: int, j: int|
        0 <= i < spec_candidates(hf).len() && 0 <= j < installed.len()
            && #[trigger] spec_candidates(hf)[i] == #[trigger] installed[j]
}

/// Whether any runtime tag candidate for a catalog name appears in the
/// installed set.
pub fn is_model_installed(hf_name: &str, installed: &Vec<String>) -> (r: bool)
    ensures
        r == spec_is_installed(hf_name@, installed@.map_values(|s: String| s@)),
{
    let ghost iv = installed@.map_values(|s: String| s@);
    let ghost cv = spec_candidates(hf_name@);
    let candidates = hf_name_to_ollama_candidates(hf_name);
    let mut i: usize = 0;
    while i < candidates.len()
        invariant
            candidates@.map_values(|s: String| s@) == cv,
            cv == spec_candidates(hf_name@),
            i <= candidates@.len(),
            iv == installed@.map_values(|s: String| s@),
            forall|a: int, b: int|
                0 <= a < i && 0 <= b < iv.len() ==> #[trigger] cv[a] != #[trigger] iv[b],
        decreases candidates@.len() - i,
    {
        let mut j: usize = 0;
        while j < installed.len()
            invariant
                candidates@.map_values(|s: String| s@) == cv,
                cv == spec_candidates(hf_name@),
                iv == installed@.map_values(|s: String| s@),
                i < candidates@.len(),
                j <= installed@.len(),
                forall|b: int| 0 <= b < j ==> cv[i as int] != #[trigger] iv[b],
            decreases installed@.len() - j,
        {
            if str_eq(candidates[i].as_str(), installed[j].as_str()) {
                proof {
                    assert(candidates@.map_values(|s: String| s@)[i as int] == candidates@[i
                        as int]@);
                    assert(iv[j as int] == installed@[j as int]@);
                    assert(spec_candidates(hf_name@)[i as int] == iv[j as int]);
                }
                return true;
            }
            j = j + 1;
        }
        i = i + 1;
    }
    false
}

/// The best runtime tag to pull for a catalog name: the first candidate.
pub fn ollama_pull_tag(hf_name: &str) -> (r: String)
    ensures
        r@ == spec_candidates(hf_name@)[0],
{
    let mut candidates = hf_name_to_ollama_candidates(hf_name);
    let first = candidates.remove(0);
    first
}

/// The local Ollama runtime, addressed over HTTP by its base URL. The
/// library only builds the URLs; the calls themselves are made by the
/// application around it.
pub struct OllamaProvider {
    base_url: String,
}

/// `s` without its trailing `'/'` characters.
pub open spec fn spec_trim_trailing_slashes(s: Seq<char>) -> Seq<char>
    decreases s.len(),
{
    if s.len() > 0 && s[s.len() - 1] == '/' {
        spec_trim_trailing_slashes(s.take(s.len() - 1))
    } else {
        s
    }
}

impl OllamaProvider {
    /// A provider at the conventional local address.
    pub fn new() -> (r: OllamaProvider)
        ensures
            r.spec_base_url() == "http://localhost:11434"@,
    {
        OllamaProvider { base_url: "http://localhost:11434".to_owned() }
    }

    /// A provider at an explicit base URL (e.g. taken from the
    /// environment by the application).
    pub fn with_base_url(base_url: String) -> (r: OllamaProvider)
        ensures
            r.spec_base_url() == base_url@,
    {
        OllamaProvider { base_url }
    }

    /// The configured base URL, as the contracts speak of it.
    pub closed spec fn spec_base_url(&self) -> Seq<char> {
        self.base_url@
    }

    /// The full API URL for an endpoint path: the base URL without its
    /// trailing slashes, then "/api/", then the path.
    pub fn api_url(&self, path: &str) -> (r: String)
        ensures
            r@ == spec_trim_trailing_slashes(self.spec_base_url()) + "/api/"@ + path@,
    {
        let n = self.base_url.as_str().unicode_len();
        let mut idx: usize = n;
        proof {
            assert(self.base_url@.take(n as int) =~= self.base_url@);
        }
        while idx > 0 && self.base_url.as_str().get_char(idx - 1) == '/'
            invariant
                idx <= n,
                n == self.base_url@.len(),
                spec_trim_trailing_slashes(self.base_url@) == spec_trim_trailing_slashes(
                    self.base_url@.take(idx as int),
                ),
            decreases idx,
        {
            proof {
                assert(self.base_url@.take(idx as int).take(idx - 1) =~= self.base_url@.take(
                    idx - 1,
                ));
            }
            idx = idx - 1;
        }
        let mut out = self.base_url.as_str().substring_char(0, idx).to_owned();
        proof {
            if idx > 0 {
                assert(self.base_url@.take(idx as int)[idx - 1] == self.base_url@[idx - 1]);
            }
            assert(spec_trim_trailing_slashes(self.base_url@.take(idx as int))
                == self.base_url@.take(idx as int));
            assert(out@ =~= self.base_url@.take(idx as int));
        }
        out.append("/api/");
        out.append(path);
        out
    }
}

} // verus!
