//! Slash commands typed at the prompt: `/exit`, `/provider [name]` and
//! `/model [name]`.

use vstd::prelude::*;

use crate::domain::{Model, Provider};
use crate::provider::{
    default_model_spec, is_llama_cpp_name, names_llama_cpp, provider_name_for, LocalProvider,
    ProviderSettings,
};
use crate::text::{
    chars_of, ends_with, ends_with_spec, find_whitespace, first_index, is_char, is_ws,
    lowercase_chars, str_eq, string_from_chars, to_ascii_lowercase_spec, trim, trim_spec,
};
use vstd::string::{StrSliceExecFns, StringExecFns};

verus! {

/// What handling a prompt leads to.
#[derive(Clone, Copy, Debug, PartialEq, Eq, Structural)]
pub enum Outcome {
    /// The prompt is not a command.
    Ignored,
    /// The command was carried out.
    Handled,
    /// The provider menu should open.
    OpenProviderMenu,
    /// The model menu should open.
    OpenModelMenu,
    /// The application should exit.
    Exit,
}

/// What a command works on: the current provider and model, the provider
/// settings, and the diagnostics it reports.
pub struct Context<'a> {
    pub provider: Provider,
    pub model: Model,
    pub settings: &'a ProviderSettings,
    pub diagnostics: Vec<String>,
}

impl<'a> Context<'a> {
    /// The context of a command, with no diagnostics yet.
    pub fn new(provider: Provider, model: Model, settings: &'a ProviderSettings) -> (c: Context<'a>)
        ensures
            c.provider == provider,
            c.model == model,
            c.settings == settings,
            c.diagnostics_view() == Seq::<Seq<char>>::empty(),
    {
        let c = Context { provider, model, settings, diagnostics: Vec::new() };
        assert(c.diagnostics_view() =~= Seq::<Seq<char>>::empty());
        c
    }

    /// The diagnostics reported so far.
    pub open spec fn diagnostics_view(&self) -> Seq<Seq<char>> {
        crate::text::views_of(self.diagnostics@)
    }

    /// Reports a diagnostic.
    pub fn push_diagnostic(&mut self, content: String)
        ensures
            final(self).diagnostics_view() == old(self).diagnostics_view().push(content@),
            final(self).provider == old(self).provider,
            final(self).model == old(self).model,
            final(self).settings == old(self).settings,
    {
        proof {
            crate::text::lemma_views_of_push(self.diagnostics@, content);
        }
        self.diagnostics.push(content);
    }

    /// The diagnostics reported.
    pub fn take_diagnostics(self) -> (d: Vec<String>)
        ensures
            crate::text::views_of(d@) == self.diagnostics_view(),
    {
        self.diagnostics
    }
}


/// What a command does: its outcome, the provider and model names after
/// it, and the diagnostics it reports.
pub struct CommandEffect {
    pub outcome: Outcome,
    pub provider: Seq<char>,
    pub model: Seq<char>,
    pub diagnostics: Seq<Seq<char>>,
}

/// A command's name and its trimmed arguments: the text is cut at its first
/// white space; a command without white space has no arguments; an empty
/// command is none.
pub open spec fn split_command_spec(command: Seq<char>) -> Option<(Seq<char>, Seq<char>)> {
    match first_index(command, is_ws()) {
        Some(i) => Some((command.take(i), trim_spec(command.skip(i + 1)))),
        None => if command.len() == 0 {
            None
        } else {
            Some((command, Seq::empty()))
        },
    }
}

/// Whether `/provider` knows this provider name (in any ASCII case).
pub open spec fn is_known_provider_spec(args: Seq<char>) -> bool {
    to_ascii_lowercase_spec(args) == "ollama"@ || is_llama_cpp_name(args)
}

/// The model name `/model` sets: for llama.cpp, a trailing `.gguf` (in any
/// ASCII case) is dropped.
pub open spec fn model_argument_spec(provider: Seq<char>, args: Seq<char>) -> Seq<char> {
    if provider == "llama.cpp"@ && ends_with_spec(to_ascii_lowercase_spec(args), ".gguf"@) {
        args.take(args.len() - ".gguf"@.len())
    } else {
        args
    }
}

/// For llama.cpp, a model name ending in `.gguf` (in any ASCII case) loses
/// exactly that suffix and nothing else; for other providers the name is
/// kept as given; and in every case the model set is a beginning of the
/// name given.
pub proof fn lemma_model_argument(provider: Seq<char>, name: Seq<char>, suffix: Seq<char>)
    ensures
        to_ascii_lowercase_spec(suffix) == ".gguf"@ ==> model_argument_spec(
            "llama.cpp"@,
            name + suffix,
        ) == name,
        provider != "llama.cpp"@ ==> model_argument_spec(provider, name) == name,
        model_argument_spec(provider, name) == name.take(
            model_argument_spec(provider, name).len() as int,
        ),
{
    reveal_strlit(".gguf");
    let whole = name + suffix;
    if to_ascii_lowercase_spec(suffix) == ".gguf"@ {
        let low = to_ascii_lowercase_spec(whole);
        assert(suffix.len() == 5);
        assert(low.subrange(low.len() - 5, low.len() as int) =~= to_ascii_lowercase_spec(suffix));
        assert(whole.take(whole.len() - 5) =~= name);
    }
    assert(name.take(name.len() as int) =~= name);
}

/// What handling `prompt` does when the provider is `provider` and the
/// model `model`.
pub open spec fn handle_spec(
    provider: Seq<char>,
    model: Seq<char>,
    settings: ProviderSettings,
    prompt: Seq<char>,
) -> CommandEffect {
    let unchanged = |o: Outcome|
        CommandEffect { outcome: o, provider, model, diagnostics: Seq::empty() };
    if !(prompt.len() > 0 && prompt[0] == '/') {
        unchanged(Outcome::Ignored)
    } else {
        match split_command_spec(prompt.drop_first()) {
            None => unchanged(Outcome::Ignored),
            Some((name, args)) => if name == "exit"@ {
                unchanged(Outcome::Exit)
            } else if name == "provider"@ {
                if args.len() == 0 {
                    unchanged(Outcome::OpenProviderMenu)
                } else if !is_known_provider_spec(args) {
                    CommandEffect {
                        outcome: Outcome::Handled,
                        provider,
                        model,
                        diagnostics: seq![
                            "Unknown provider: "@ + args + ". Usage: /provider ollama|llama.cpp"@,
                        ],
                    }
                } else {
                    let p = provider_name_for(args);
                    let m = default_model_spec(args, settings);
                    CommandEffect {
                        outcome: Outcome::Handled,
                        provider: p,
                        model: m,
                        diagnostics: seq!["Provider set to "@ + p + ". Model set to "@ + m + "."@],
                    }
                }
            } else if name == "model"@ {
                if args.len() == 0 {
                    unchanged(Outcome::OpenModelMenu)
                } else {
                    let m = model_argument_spec(provider, args);
                    CommandEffect {
                        outcome: Outcome::Handled,
                        provider,
                        model: m,
                        diagnostics: seq!["Model set to "@ + m + "."@],
                    }
                }
            } else {
                unchanged(Outcome::Ignored)
            },
        }
    }
}

/// Handles a prompt: a `/` followed by a command name and its arguments
/// runs that command; anything else is ignored.
pub fn handle(context: &mut Context<'_>, prompt: &str) -> (o: Outcome)
    ensures
        ({
            let e = handle_spec(
                old(context).provider.name@,
                old(context).model.name@,
                *old(context).settings,
                prompt@,
            );
            &&& o == e.outcome
            &&& final(context).provider.name@ == e.provider
            &&& final(context).model.name@ == e.model
            &&& final(context).diagnostics_view() == old(context).diagnostics_view() + e.diagnostics
            &&& final(context).settings == old(context).settings
        }),
{
    let ghost before = context.diagnostics_view();
    assert(before + Seq::<Seq<char>>::empty() =~= before);
    let cs = chars_of(prompt);
    if cs.len() == 0 || cs[0] != '/' {
        return Outcome::Ignored;
    }
    let n = cs.len();
    let command = prompt.substring_char(1, n);
    assert(command@ =~= prompt@.drop_first());
    let ccs = chars_of(command);
    let m = ccs.len();
    proof {
        crate::text::lemma_first_index_props(ccs@, is_ws());
    }
    let (name, args) = match find_whitespace(ccs.as_slice()) {
        Some(i) => {
            let name = command.substring_char(0, i);
            let args = trim(command.substring_char(i + 1, m));
            assert(name@ =~= command@.take(i as int));
            assert(command@.subrange(i + 1, m as int) =~= command@.skip(i + 1));
            (name, args)
        },
        None => {
            if m == 0 {
                return Outcome::Ignored;
            }
            let empty = command.substring_char(m, m);
            assert(empty@ =~= Seq::<char>::empty());
            (command, empty)
        },
    };
    if str_eq(name, "exit") {
        Outcome::Exit
    } else if str_eq(name, "provider") {
        execute_provider(context, args)
    } else if str_eq(name, "model") {
        execute_model(context, args)
    } else {
        Outcome::Ignored
    }
}

/// `/provider [name]`.
fn execute_provider(context: &mut Context<'_>, args: &str) -> (o: Outcome)
    ensures
        ({
            let provider = old(context).provider.name@;
            let model = old(context).model.name@;
            let settings = *old(context).settings;
            let e = if args@.len() == 0 {
                CommandEffect {
                    outcome: Outcome::OpenProviderMenu,
                    provider,
                    model,
                    diagnostics: Seq::empty(),
                }
            } else if !is_known_provider_spec(args@) {
                CommandEffect {
                    outcome: Outcome::Handled,
                    provider,
                    model,
                    diagnostics: seq![
                        "Unknown provider: "@ + args@ + ". Usage: /provider ollama|llama.cpp"@,
                    ],
                }
            } else {
                let p = provider_name_for(args@);
                let m = default_model_spec(args@, settings);
                CommandEffect {
                    outcome: Outcome::Handled,
                    provider: p,
                    model: m,
                    diagnostics: seq!["Provider set to "@ + p + ". Model set to "@ + m + "."@],
                }
            };
            &&& o == e.outcome
            &&& final(context).provider.name@ == e.provider
            &&& final(context).model.name@ == e.model
            &&& final(context).diagnostics_view() == old(context).diagnostics_view() + e.diagnostics
            &&& final(context).settings == old(context).settings
        }),
{
    let ghost before = context.diagnostics_view();
    assert(before + Seq::<Seq<char>>::empty() =~= before);
    if args.is_empty() {
        return Outcome::OpenProviderMenu;
    }
    let lower = lowercase_chars(args);
    let ollama = chars_of("ollama");
    let known = crate::text::chars_eq(lower.as_slice(), ollama.as_slice()) || names_llama_cpp(args);
    if !known {
        let msg = String::from_str("Unknown provider: ").concat(args).concat(
            ". Usage: /provider ollama|llama.cpp",
        );
        context.push_diagnostic(msg);
        assert(context.diagnostics_view() =~= before + seq![msg@]);
        return Outcome::Handled;
    }
    let local_provider = LocalProvider::from_name(args, context.settings);
    context.provider = Provider::named(local_provider.name());
    context.model = LocalProvider::default_model_for(args, context.settings);
    let msg = String::from_str("Provider set to ").concat(context.provider.name.as_str()).concat(
        ". Model set to ",
    ).concat(context.model.name.as_str()).concat(".");
    context.push_diagnostic(msg);
    assert(context.diagnostics_view() =~= before + seq![msg@]);
    Outcome::Handled
}

/// `/model [name]`.
fn execute_model(context: &mut Context<'_>, args: &str) -> (o: Outcome)
    ensures
        ({
            let provider = old(context).provider.name@;
            let model = old(context).model.name@;
            let e = if args@.len() == 0 {
                CommandEffect {
                    outcome: Outcome::OpenModelMenu,
                    provider,
                    model,
                    diagnostics: Seq::empty(),
                }
            } else {
                let m = model_argument_spec(provider, args@);
                CommandEffect {
                    outcome: Outcome::Handled,
                    provider,
                    model: m,
                    diagnostics: seq!["Model set to "@ + m + "."@],
                }
            };
            &&& o == e.outcome
            &&& final(context).provider.name@ == e.provider
            &&& final(context).model.name@ == e.model
            &&& final(context).diagnostics_view() == old(context).diagnostics_view() + e.diagnostics
            &&& final(context).settings == old(context).settings
        }),
{
    let ghost before = context.diagnostics_view();
    assert(before + Seq::<Seq<char>>::empty() =~= before);
    if args.is_empty() {
        return Outcome::OpenModelMenu;
    }
    let acs = chars_of(args);
    let lower = lowercase_chars(args);
    let suffix = chars_of(".gguf");
    let value = if str_eq(context.provider.name.as_str(), "llama.cpp") && ends_with(
        lower.as_slice(),
        suffix.as_slice(),
    ) {
        let v = string_from_chars(&acs.as_slice()[0..acs.len() - suffix.len()]);
        assert(v@ =~= args@.take(args@.len() - ".gguf"@.len()));
        v
    } else {
        String::from_str(args)
    };
    context.model = Model::new(value);
    let msg = String::from_str("Model set to ").concat(context.model.name.as_str()).concat(".");
    context.push_diagnostic(msg);
    assert(context.diagnostics_view() =~= before + seq![msg@]);
    Outcome::Handled
}

} // verus!
