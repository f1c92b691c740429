//! Heuristic design-pattern detection over raw source text.
//!
//! Each of the eight named patterns has one scorer, selected by the file
//! extension, that returns a fixed confidence when a small set of textual
//! markers are jointly present, and zero otherwise.  The detector is a
//! textual classifier, not a structural one: it never sees the syntax tree,
//! and false positives and negatives are expected and acceptable.
//!
//! Confidences are integers in hundredths, so `70` stands for a confidence
//! of 0.70; a scorer never reports more than 100.  A zero score is never
//! emitted: absence from the result means absence of a match.

use vstd::prelude::*;
use vstd::string::StringSliceAdditionalSpecFns;
use crate::text::{contains_seq, contains_str, str_eq};

verus! {

/// The extensions whose sources the pattern scorers understand.
pub open spec fn pattern_ext_supported(ext: Seq<char>) -> bool {
    ||| ext == "py"@
    ||| ext == "js"@
    ||| ext == "ts"@
    ||| ext == "java"@
}

/// Confidence of the Singleton pattern for Python sources.
pub open spec fn spec_singleton_py(code: Seq<u8>) -> u32 {
    if contains_seq(code, "def __init__(self)".spec_bytes()) && contains_seq(code, "raise Exception".spec_bytes())
        && contains_seq(code, "_instance = None".spec_bytes()) && contains_seq(code, "@staticmethod".spec_bytes())
        && contains_seq(code, "def get_instance(".spec_bytes()) {
        90
    } else if contains_seq(code, "@staticmethod".spec_bytes()) && contains_seq(code, "def get_instance(".spec_bytes()) {
        50
    } else {
        0
    }
}

/// Confidence of the Singleton pattern, by extension.
pub open spec fn spec_singleton(code: Seq<u8>, ext: Seq<char>) -> u32 {
    if ext == "py"@ {
        spec_singleton_py(code)
    } else if ext == "js"@ || ext == "ts"@ {
        if (contains_seq(code, "static instance".spec_bytes()) || contains_seq(code, "let instance".spec_bytes())
            || contains_seq(code, "var instance".spec_bytes())) && (contains_seq(code, "getInstance(".spec_bytes())
            || contains_seq(code, "get_instance(".spec_bytes())) {
            80
        } else if contains_seq(code, "getInstance(".spec_bytes()) || contains_seq(code, "get_instance(".spec_bytes()) {
            50
        } else {
            0
        }
    } else if ext == "java"@ {
        if contains_seq(code, "private".spec_bytes()) && contains_seq(code, "static".spec_bytes())
            && contains_seq(code, "getInstance(".spec_bytes()) {
            90
        } else {
            0
        }
    } else {
        0
    }
}

/// Confidence of the Factory pattern, by extension.
pub open spec fn spec_factory(code: Seq<u8>, ext: Seq<char>) -> u32 {
    if ext == "py"@ {
        if contains_seq(code, "def create_".spec_bytes()) && contains_seq(code, "return".spec_bytes()) {
            70
        } else {
            0
        }
    } else if ext == "js"@ || ext == "ts"@ {
        if contains_seq(code, "function create".spec_bytes()) && contains_seq(code, "return".spec_bytes()) {
            70
        } else {
            0
        }
    } else if ext == "java"@ {
        if contains_seq(code, "public".spec_bytes()) && contains_seq(code, "create".spec_bytes())
            && contains_seq(code, "return".spec_bytes()) {
            70
        } else {
            0
        }
    } else {
        0
    }
}

/// Confidence of the Observer pattern, by extension.
pub open spec fn spec_observer(code: Seq<u8>, ext: Seq<char>) -> u32 {
    if ext == "py"@ {
        if (contains_seq(code, "def subscribe".spec_bytes()) || contains_seq(code, "def attach".spec_bytes()))
            && (contains_seq(code, "def notify".spec_bytes()) || contains_seq(code, "def update".spec_bytes())) {
            80
        } else {
            0
        }
    } else if ext == "js"@ || ext == "ts"@ {
        if (contains_seq(code, "subscribe(".spec_bytes()) || contains_seq(code, "on(".spec_bytes()))
            && (contains_seq(code, "notify(".spec_bytes()) || contains_seq(code, "emit(".spec_bytes())) {
            80
        } else {
            0
        }
    } else if ext == "java"@ {
        if (contains_seq(code, "addObserver(".spec_bytes()) || contains_seq(code, "addListener(".spec_bytes()))
            && (contains_seq(code, "notifyObservers(".spec_bytes()) || contains_seq(code, "update(".spec_bytes())) {
            80
        } else {
            0
        }
    } else {
        0
    }
}

/// Confidence of the Builder pattern, by extension.
pub open spec fn spec_builder(code: Seq<u8>, ext: Seq<char>) -> u32 {
    if ext == "py"@ {
        if contains_seq(code, "return self".spec_bytes()) && contains_seq(code, "def build".spec_bytes()) {
            70
        } else {
            0
        }
    } else if ext == "js"@ || ext == "ts"@ || ext == "java"@ {
        if contains_seq(code, "return this".spec_bytes()) && contains_seq(code, "build(".spec_bytes()) {
            70
        } else {
            0
        }
    } else {
        0
    }
}

/// Confidence of the Repository pattern, by extension.
pub open spec fn spec_repository(code: Seq<u8>, ext: Seq<char>) -> u32 {
    if ext == "py"@ {
        if contains_seq(code, "def find_".spec_bytes()) && contains_seq(code, "def save_".spec_bytes()) {
            70
        } else {
            0
        }
    } else if ext == "js"@ || ext == "ts"@ {
        if contains_seq(code, "find(".spec_bytes()) && contains_seq(code, "save(".spec_bytes()) {
            70
        } else {
            0
        }
    } else if ext == "java"@ {
        if contains_seq(code, "find".spec_bytes()) && contains_seq(code, "save".spec_bytes()) {
            70
        } else {
            0
        }
    } else {
        0
    }
}

/// Confidence of the MVC pattern, by extension.
pub open spec fn spec_mvc(code: Seq<u8>, ext: Seq<char>) -> u32 {
    if pattern_ext_supported(ext) {
        if contains_seq(code, "Model".spec_bytes()) && contains_seq(code, "View".spec_bytes())
            && contains_seq(code, "Controller".spec_bytes()) {
            80
        } else {
            0
        }
    } else {
        0
    }
}

/// Confidence of the Dependency Injection pattern, by extension.
pub open spec fn spec_dependency_injection(code: Seq<u8>, ext: Seq<char>) -> u32 {
    if ext == "py"@ {
        if contains_seq(code, "def __init__(self".spec_bytes()) && contains_seq(code, "service".spec_bytes()) {
            70
        } else {
            0
        }
    } else if ext == "js"@ || ext == "ts"@ {
        if contains_seq(code, "constructor(".spec_bytes()) && contains_seq(code, "service".spec_bytes()) {
            70
        } else {
            0
        }
    } else if ext == "java"@ {
        if contains_seq(code, "@Inject".spec_bytes()) || contains_seq(code, "@Autowired".spec_bytes()) {
            80
        } else {
            0
        }
    } else {
        0
    }
}

/// Confidence of the Decorator pattern, by extension.
pub open spec fn spec_decorator(code: Seq<u8>, ext: Seq<char>) -> u32 {
    if ext == "py"@ {
        if contains_seq(code, "@".spec_bytes()) && contains_seq(code, "def ".spec_bytes()) {
            70
        } else {
            0
        }
    } else if ext == "js"@ || ext == "ts"@ {
        if contains_seq(code, "@".spec_bytes()) && contains_seq(code, "function ".spec_bytes()) {
            70
        } else {
            0
        }
    } else if ext == "java"@ {
        if contains_seq(code, "@Override".spec_bytes()) || contains_seq(code, "@Decorator".spec_bytes()) {
            70
        } else {
            0
        }
    } else {
        0
    }
}

/// The confidence the scorer registered under `name` gives to `code`;
/// zero for a name no scorer is registered under.
pub open spec fn spec_score_for(name: Seq<char>, code: Seq<u8>, ext: Seq<char>) -> u32 {
    if name == "Singleton"@ {
        spec_singleton(code, ext)
    } else if name == "Factory"@ {
        spec_factory(code, ext)
    } else if name == "Observer"@ {
        spec_observer(code, ext)
    } else if name == "Builder"@ {
        spec_builder(code, ext)
    } else if name == "Repository"@ {
        spec_repository(code, ext)
    } else if name == "MVC"@ {
        spec_mvc(code, ext)
    } else if name == "Dependency Injection"@ {
        spec_dependency_injection(code, ext)
    } else if name == "Decorator"@ {
        spec_decorator(code, ext)
    } else {
        0
    }
}

/// The entry a scorer contributes to the result: its name and confidence
/// when the confidence is positive, nothing otherwise.
pub open spec fn spec_entry(name: Seq<char>, c: u32) -> Seq<(Seq<char>, u32)> {
    if c > 0 {
        seq![(name, c)]
    } else {
        Seq::empty()
    }
}

/// The detection result for a registry of scorer names, in registry order.
pub open spec fn spec_detect_list(names: Seq<Seq<char>>, code: Seq<u8>, ext: Seq<char>) -> Seq<
    (Seq<char>, u32),
>
    decreases names.len(),
{
    if names.len() == 0 {
        Seq::empty()
    } else {
        spec_detect_list(names.drop_last(), code, ext) + spec_entry(
            names.last(),
            spec_score_for(names.last(), code, ext),
        )
    }
}

/// The canonical registry: the eight pattern names, in the order the
/// detector reports them.
pub open spec fn spec_registry() -> Seq<Seq<char>> {
    seq![
        "Singleton"@,
        "Factory"@,
        "Observer"@,
        "Builder"@,
        "Repository"@,
        "MVC"@,
        "Dependency Injection"@,
        "Decorator"@,
    ]
}

/// The detection result of the canonical registry.
pub open spec fn spec_detect(code: Seq<u8>, ext: Seq<char>) -> Seq<(Seq<char>, u32)> {
    spec_detect_list(spec_registry(), code, ext)
}

/// The character sequences of a list of name/confidence pairs.
pub open spec fn view_pairs(s: Seq<(String, u32)>) -> Seq<(Seq<char>, u32)> {
    s.map_values(|p: (String, u32)| (p.0@, p.1))
}

/// On an extension no scorer understands, every registry yields nothing.
pub proof fn lemma_detect_list_unsupported(names: Seq<Seq<char>>, code: Seq<u8>, ext: Seq<char>)
    requires
        !pattern_ext_supported(ext),
    ensures
        spec_detect_list(names, code, ext) == Seq::<(Seq<char>, u32)>::empty(),
    decreases names.len(),
{
    if names.len() > 0 {
        lemma_detect_list_unsupported(names.drop_last(), code, ext);
        assert(spec_detect_list(names, code, ext) =~= Seq::<(Seq<char>, u32)>::empty());
    }
}

/// The registry of pattern scorers.  The names it holds decide which
/// scorers run and in which order the matches are reported, so a scorer can
/// be added or removed without touching the others.
pub struct PatternDetector {
    patterns: Vec<String>,
}

impl PatternDetector {
    /// The registry a detector holds, as character sequences.
    pub closed spec fn names(&self) -> Seq<Seq<char>> {
        self.patterns@.map_values(|s: String| s@)
    }

    /// A detector holding the canonical eight-pattern registry.
    pub fn new() -> (r: Self)
        ensures
            r.names() == spec_registry(),
    {
        let mut patterns: Vec<String> = Vec::new();
        patterns.push("Singleton".to_owned());
        patterns.push("Factory".to_owned());
        patterns.push("Observer".to_owned());
        patterns.push("Builder".to_owned());
        patterns.push("Repository".to_owned());
        patterns.push("MVC".to_owned());
        patterns.push("Dependency Injection".to_owned());
        patterns.push("Decorator".to_owned());
        proof {
            assert(patterns@.map_values(|s: String| s@) =~= spec_registry());
        }
        PatternDetector { patterns }
    }

    /// The scorer registered under `name`, applied to `code` and `ext`.
    fn score_for(name: &str, code: &str, ext: &str) -> (r: u32)
        ensures
            r == spec_score_for(name@, code.spec_bytes(), ext@),
    {
        if str_eq(name, "Singleton") {
            Self::detect_singleton_lang(code, ext)
        } else if str_eq(name, "Factory") {
            Self::detect_factory_lang(code, ext)
        } else if str_eq(name, "Observer") {
            Self::detect_observer_lang(code, ext)
        } else if str_eq(name, "Builder") {
            detect_builder_lang(code, ext)
        } else if str_eq(name, "Repository") {
            detect_repository_lang(code, ext)
        } else if str_eq(name, "MVC") {
            detect_mvc_lang(code, ext)
        } else if str_eq(name, "Dependency Injection") {
            detect_dependency_injection_lang(code, ext)
        } else if str_eq(name, "Decorator") {
            detect_decorator_lang(code, ext)
        } else {
            0
        }
    }

    /// Run every registered scorer over `code` and report each positive
    /// confidence under its pattern name, in registry order.  On an
    /// extension no scorer understands the result is empty.
    pub fn detect_patterns(&self, code: &str, ext: &str) -> (r: Vec<(String, u32)>)
        ensures
            view_pairs(r@) == spec_detect_list(self.names(), code.spec_bytes(), ext@),
            !pattern_ext_supported(ext@) ==> r@.len() == 0,
    {
        let mut out: Vec<(String, u32)> = Vec::new();
        let n = self.patterns.len();
        for i in 0..n
            invariant
                n == self.patterns@.len(),
                view_pairs(out@) == spec_detect_list(self.names().take(i as int), code.spec_bytes(), ext@),
        {
            let c = Self::score_for(self.patterns[i].as_str(), code, ext);
            proof {
                assert(self.names().take(i + 1).drop_last() =~= self.names().take(i as int));
                assert(self.names().take(i + 1).last() == self.names()[i as int]);
            }
            if c > 0 {
                let ghost prev = out@;
                out.push((self.patterns[i].clone(), c));
                proof {
                    assert(view_pairs(out@) =~= view_pairs(prev) + spec_entry(
                        self.names()[i as int],
                        c,
                    ));
                }
            } else {
                proof {
                    assert(view_pairs(out@) =~= view_pairs(out@) + spec_entry(
                        self.names()[i as int],
                        c,
                    ));
                }
            }
        }
        proof {
            assert(self.names().take(n as int) =~= self.names());
            if !pattern_ext_supported(ext@) {
                lemma_detect_list_unsupported(self.names(), code.spec_bytes(), ext@);
            }
        }
        out
    }

    /// Singleton scorer, dispatching on the extension.
    fn detect_singleton_lang(code: &str, ext: &str) -> (r: u32)
        ensures
            r == spec_singleton(code.spec_bytes(), ext@),
    {
        if str_eq(ext, "py") {
            Self::detect_singleton(code)
        } else if str_eq(ext, "js") || str_eq(ext, "ts") {
            let has_instance = contains_str(code, "static instance") || contains_str(
                code,
                "let instance",
            ) || contains_str(code, "var instance");
            let has_get_instance = contains_str(code, "getInstance(") || contains_str(
                code,
                "get_instance(",
            );
            if has_instance && has_get_instance {
                80
            } else if has_get_instance {
                50
            } else {
                0
            }
        } else if str_eq(ext, "java") {
            let has_private_ctor = contains_str(code, "private") && contains_str(code, "static")
                && contains_str(code, "getInstance(");
            if has_private_ctor {
                90
            } else {
                0
            }
        } else {
            0
        }
    }

    /// Singleton scorer for Python: a guarded constructor together with a
    /// static accessor scores highest, the accessor alone scores lower.
    fn detect_singleton(code: &str) -> (r: u32)
        ensures
            r == spec_singleton_py(code.spec_bytes()),
    {
        let has_private_ctor = contains_str(code, "def __init__(self)") && contains_str(
            code,
            "raise Exception",
        ) && contains_str(code, "_instance = None");
        let has_get_instance = contains_str(code, "@staticmethod") && contains_str(
            code,
            "def get_instance(",
        );
        if has_private_ctor && has_get_instance {
            90
        } else if has_get_instance {
            50
        } else {
            0
        }
    }

    /// Factory scorer, dispatching on the extension.
    fn detect_factory_lang(code: &str, ext: &str) -> (r: u32)
        ensures
            r == spec_factory(code.spec_bytes(), ext@),
    {
        if str_eq(ext, "py") {
            if contains_str(code, "def create_") && contains_str(code, "return") {
                70
            } else {
                0
            }
        } else if str_eq(ext, "js") || str_eq(ext, "ts") {
            if contains_str(code, "function create") && contains_str(code, "return") {
                70
            } else {
                0
            }
        } else if str_eq(ext, "java") {
            if contains_str(code, "public") && contains_str(code, "create") && contains_str(
                code,
                "return",
            ) {
                70
            } else {
                0
            }
        } else {
            0
        }
    }

    /// Observer scorer, dispatching on the extension.
    fn detect_observer_lang(code: &str, ext: &str) -> (r: u32)
        ensures
            r == spec_observer(code.spec_bytes(), ext@),
    {
        if str_eq(ext, "py") {
            let has_subscribe = contains_str(code, "def subscribe") || contains_str(
                code,
                "def attach",
            );
            let has_notify = contains_str(code, "def notify") || contains_str(code, "def update");
            if has_subscribe && has_notify {
                80
            } else {
                0
            }
        } else if str_eq(ext, "js") || str_eq(ext, "ts") {
            let has_subscribe = contains_str(code, "subscribe(") || contains_str(code, "on(");
            let has_notify = contains_str(code, "notify(") || contains_str(code, "emit(");
            if has_subscribe && has_notify {
                80
            } else {
                0
            }
        } else if str_eq(ext, "java") {
            let has_add_observer = contains_str(code, "addObserver(") || contains_str(
                code,
                "addListener(",
            );
            let has_notify = contains_str(code, "notifyObservers(") || contains_str(
                code,
                "update(",
            );
            if has_add_observer && has_notify {
                80
            } else {
                0
            }
        } else {
            0
        }
    }
}

/// Builder scorer, dispatching on the extension.
fn detect_builder_lang(code: &str, ext: &str) -> (r: u32)
    ensures
        r == spec_builder(code.spec_bytes(), ext@),
{
    if str_eq(ext, "py") {
        let has_chain = contains_str(code, "return self") && contains_str(code, "def build");
        if has_chain {
            70
        } else {
            0
        }
    } else if str_eq(ext, "js") || str_eq(ext, "ts") || str_eq(ext, "java") {
        let has_chain = contains_str(code, "return this") && contains_str(code, "build(");
        if has_chain {
            70
        } else {
            0
        }
    } else {
        0
    }
}

/// Repository scorer, dispatching on the extension.
fn detect_repository_lang(code: &str, ext: &str) -> (r: u32)
    ensures
        r == spec_repository(code.spec_bytes(), ext@),
{
    if str_eq(ext, "py") {
        let has_repo = contains_str(code, "def find_") && contains_str(code, "def save_");
        if has_repo {
            70
        } else {
            0
        }
    } else if str_eq(ext, "js") || str_eq(ext, "ts") {
        let has_repo = contains_str(code, "find(") && contains_str(code, "save(");
        if has_repo {
            70
        } else {
            0
        }
    } else if str_eq(ext, "java") {
        let has_repo = contains_str(code, "find") && contains_str(code, "save");
        if has_repo {
            70
        } else {
            0
        }
    } else {
        0
    }
}

/// MVC scorer: the three role names must all occur.
fn detect_mvc_lang(code: &str, ext: &str) -> (r: u32)
    ensures
        r == spec_mvc(code.spec_bytes(), ext@),
{
    if str_eq(ext, "py") || str_eq(ext, "js") || str_eq(ext, "ts") || str_eq(ext, "java") {
        let has_model = contains_str(code, "Model");
        let has_view = contains_str(code, "View");
        let has_controller = contains_str(code, "Controller");
        if has_model && has_view && has_controller {
            80
        } else {
            0
        }
    } else {
        0
    }
}

/// Dependency-Injection scorer, dispatching on the extension.
fn detect_dependency_injection_lang(code: &str, ext: &str) -> (r: u32)
    ensures
        r == spec_dependency_injection(code.spec_bytes(), ext@),
{
    if str_eq(ext, "py") {
        let has_di = contains_str(code, "def __init__(self") && contains_str(code, "service");
        if has_di {
            70
        } else {
            0
        }
    } else if str_eq(ext, "js") || str_eq(ext, "ts") {
        let has_di = contains_str(code, "constructor(") && contains_str(code, "service");
        if has_di {
            70
        } else {
            0
        }
    } else if str_eq(ext, "java") {
        let has_di = contains_str(code, "@Inject") || contains_str(code, "@Autowired");
        if has_di {
            80
        } else {
            0
        }
    } else {
        0
    }
}

/// Decorator scorer, dispatching on the extension.
fn detect_decorator_lang(code: &str, ext: &str) -> (r: u32)
    ensures
        r == spec_decorator(code.spec_bytes(), ext@),
{
    if str_eq(ext, "py") {
        let has_decorator = contains_str(code, "@") && contains_str(code, "def ");
        if has_decorator {
            70
        } else {
            0
        }
    } else if str_eq(ext, "js") || str_eq(ext, "ts") {
        let has_decorator = contains_str(code, "@") && contains_str(code, "function ");
        if has_decorator {
            70
        } else {
            0
        }
    } else if str_eq(ext, "java") {
        let has_decorator = contains_str(code, "@Override") || contains_str(code, "@Decorator");
        if has_decorator {
            70
        } else {
            0
        }
    } else {
        0
    }
}

} // verus!
