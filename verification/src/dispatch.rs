//! Which executor runs a piece of code in a given language.
use vstd::prelude::*;
use crate::text::{append, same_text};
use crate::types::AppError;

verus! {

/// The kinds of executors.
#[derive(PartialEq, Eq, Structural, Clone, Copy)]
pub enum EngineKind {
    Bash,
    Python,
    Computer,
    Web,
}

/// One registered executor: the language name it answers to and its kind.
pub struct Registration {
    pub language: String,
    pub kind: EngineKind,
}

/// The registry of executors by language, with a default for unknown languages.
/// Each language name is registered once.
pub struct ExecutionDispatcher {
    executors: Vec<Registration>,
    default_executor: String,
}

#[verifier::ext_equal]
pub struct DispatcherView {
    pub executors: Seq<(Seq<char>, EngineKind)>,
    pub default_executor: Seq<char>,
}

impl View for ExecutionDispatcher {
    type V = DispatcherView;

    closed spec fn view(&self) -> DispatcherView {
        DispatcherView {
            executors: self.executors@.map_values(|r: Registration| (r.language@, r.kind)),
            default_executor: self.default_executor@,
        }
    }
}

/// The registrations the dispatcher starts with, in order.
pub open spec fn default_registry() -> Seq<(Seq<char>, EngineKind)> {
    seq![
        ("bash"@, EngineKind::Bash),
        ("sh"@, EngineKind::Bash),
        ("python"@, EngineKind::Python),
        ("python3"@, EngineKind::Python),
        ("computer"@, EngineKind::Computer),
        ("web"@, EngineKind::Web),
    ]
}

/// The language asked for, or the default executor's name when none is given.
pub open spec fn effective_language(d: DispatcherView, language: Seq<char>) -> Seq<char> {
    if language.len() == 0 {
        d.default_executor
    } else {
        language
    }
}

/// `language` is registered.
pub open spec fn registered(reg: Seq<(Seq<char>, EngineKind)>, language: Seq<char>) -> bool {
    exists|i: int| 0 <= i < reg.len() && (#[trigger] reg[i]).0 == language
}

/// Where code in `language` goes: the registered executor of that name (the default
/// name when `language` is empty), else the default executor, which is told the
/// language asked for. `None` when neither is registered.
pub open spec fn route(d: DispatcherView, language: Seq<char>) -> Option<(Seq<char>, Seq<char>)> {
    let lang = effective_language(d, language);
    if registered(d.executors, lang) {
        Some((lang, lang))
    } else if registered(d.executors, d.default_executor) {
        Some((d.default_executor, lang))
    } else {
        None
    }
}

/// Code in `language` goes to the executor named `executor`, told `lang`.
pub open spec fn routes_to(d: DispatcherView, language: Seq<char>, executor: Seq<char>, lang: Seq<char>) -> bool {
    match route(d, language) {
        Some(p) => p.0 == executor && p.1 == lang,
        None => false,
    }
}

/// The executor chosen for a piece of code, and the language it is told.
pub struct Route {
    pub executor: String,
    pub language: String,
}

pub open spec fn no_executor_message(lang: Seq<char>) -> Seq<char> {
    "No executor for language: "@ + lang
}

fn register(v: &mut Vec<Registration>, language: &str, kind: EngineKind)
    ensures
        final(v)@.map_values(|r: Registration| (r.language@, r.kind)) == old(v)@.map_values(
            |r: Registration| (r.language@, r.kind),
        ).push((language@, kind)),
{
    let ghost before = v@;
    v.push(Registration { language: String::from_str(language), kind });
    assert(v@.map_values(|r: Registration| (r.language@, r.kind)) =~= before.map_values(
        |r: Registration| (r.language@, r.kind),
    ).push((language@, kind)));
}

impl ExecutionDispatcher {
    /// The dispatcher with the standard executors, defaulting to bash.
    pub fn new() -> (d: ExecutionDispatcher)
        ensures
            d@.executors == default_registry(),
            d@.default_executor == "bash"@,
    {
        let mut v: Vec<Registration> = Vec::new();
        register(&mut v, "bash", EngineKind::Bash);
        register(&mut v, "sh", EngineKind::Bash);
        register(&mut v, "python", EngineKind::Python);
        register(&mut v, "python3", EngineKind::Python);
        register(&mut v, "computer", EngineKind::Computer);
        register(&mut v, "web", EngineKind::Web);
        let d = ExecutionDispatcher { executors: v, default_executor: String::from_str("bash") };
        assert(d@.executors =~= default_registry());
        d
    }

    /// The registered executors, in order.
    pub fn registrations(&self) -> (r: Vec<(String, EngineKind)>)
        ensures
            r@.map_values(|p: (String, EngineKind)| (p.0@, p.1)) == self@.executors,
    {
        let mut r: Vec<(String, EngineKind)> = Vec::new();
        let mut i: usize = 0;
        while i < self.executors.len()
            invariant
                i <= self.executors@.len(),
                r@.map_values(|p: (String, EngineKind)| (p.0@, p.1)) == self@.executors.subrange(0, i as int),
            decreases self.executors@.len() - i,
        {
            let ghost before = r@;
            let reg = &self.executors[i];
            let name = reg.language.clone();
            r.push((name, reg.kind));
            proof {
                assert(self@.executors[i as int] == (reg.language@, reg.kind));
                assert(r@.map_values(|p: (String, EngineKind)| (p.0@, p.1)) =~= before.map_values(
                    |p: (String, EngineKind)| (p.0@, p.1),
                ).push((name@, reg.kind)));
                assert(r@.map_values(|p: (String, EngineKind)| (p.0@, p.1)) =~= self@.executors.subrange(
                    0,
                    i + 1,
                ));
            }
            i = i + 1;
        }
        proof {
            assert(self@.executors.subrange(0, i as int) =~= self@.executors);
        }
        r
    }

    fn is_registered(&self, language: &str) -> (r: bool)
        ensures
            r == registered(self@.executors, language@),
    {
        let mut i: usize = 0;
        while i < self.executors.len()
            invariant
                i <= self.executors@.len(),
                forall|k: int| 0 <= k < i ==> (#[trigger] self@.executors[k]).0 != language@,
            decreases self.executors@.len() - i,
        {
            if same_text(self.executors[i].language.as_str(), language) {
                proof {
                    assert(self@.executors[i as int].0 == language@);
                }
                return true;
            }
            i = i + 1;
        }
        false
    }

    /// Chooses the executor for code in `language` (see `route`).
    pub fn route(&self, language: &str) -> (r: Result<Route, AppError>)
        ensures
            match r {
                Ok(rt) => routes_to(self@, language@, rt.executor@, rt.language@),
                Err(e) => route(self@, language@) is None && (e matches AppError::ExecutionError(m)
                    && m@ == no_executor_message(effective_language(self@, language@))),
            },
    {
        let lang = if language.unicode_len() == 0 {
            self.default_executor.clone()
        } else {
            String::from_str(language)
        };
        assert(lang@ == (if language@.len() == 0 {
            self@.default_executor
        } else {
            language@
        }));
        if self.is_registered(lang.as_str()) {
            let e = lang.clone();
            Ok(Route { executor: e, language: lang })
        } else if self.is_registered(self.default_executor.as_str()) {
            let e = self.default_executor.clone();
            Ok(Route { executor: e, language: lang })
        } else {
            let mut m = String::from_str("No executor for language: ");
            append(&mut m, lang.as_str());
            Err(AppError::ExecutionError(m))
        }
    }
}

/// The standard dispatcher sends code in any language to a registered executor.
pub proof fn law_default_dispatcher_always_routes(d: DispatcherView, language: Seq<char>)
    requires
        d.executors == default_registry(),
        d.default_executor == "bash"@,
    ensures
        route(d, language) is Some,
        match route(d, language) {
            Some(r) => registered(d.executors, r.0),
            None => false,
        },
{
    assert(d.executors[0].0 == "bash"@);
}

/// Each tool offered to the model runs, with the parameter its schema declares,
/// on a registered executor of the matching kind.
pub proof fn law_offered_tools_reach_their_executor(i: int, id: Seq<char>, arguments: Seq<char>)
    requires
        0 <= i < crate::tools::offered_tools().len(),
    ensures
        ({
            let t = crate::tools::offered_tools()[i];
            let call = crate::types::ToolCallView { id, name: t.name, arguments };
            let (lang, code) = crate::tools::tool_invocation(call);
            &&& code == if i == 2 {
                "search "@ + crate::tools::json_string_member(arguments, t.parameter)
            } else {
                crate::tools::json_string_member(arguments, t.parameter)
            }
            &&& exists|k: int|
                0 <= k < default_registry().len() && (#[trigger] default_registry()[k]).0 == lang
                    && default_registry()[k].1 == (if i == 0 {
                    EngineKind::Bash
                } else if i == 1 {
                    EngineKind::Python
                } else {
                    EngineKind::Web
                })
        }),
{
    let t = crate::tools::offered_tools()[i];
    reveal_strlit("execute_bash");
    reveal_strlit("execute_python");
    reveal_strlit("web_search");
    assert("execute_bash"@.len() == 12);
    assert("execute_python"@.len() == 14);
    assert("web_search"@.len() == 10);
    if i == 0 {
        assert(default_registry()[0].0 == "bash"@);
    } else if i == 1 {
        assert(t.name != "execute_bash"@);
        assert(default_registry()[2].0 == "python"@);
    } else {
        assert(t.name != "execute_bash"@);
        assert(t.name != "execute_python"@);
        assert(default_registry()[5].0 == "web"@);
    }
}

} // verus!
