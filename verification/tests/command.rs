use switchyard::command::{handle, Context, Outcome};
use switchyard::domain::{Model, Provider};
use switchyard::provider::ProviderSettings;

fn command_context(provider: Provider, model: Model, settings: &ProviderSettings) -> Context<'_> {
    Context::new(provider, model, settings)
}

#[test]
fn ignores_chat_prompt() {
    let settings = ProviderSettings::defaults();
    let provider = Provider::from("Ollama");
    let model = Model::from("llama3.2");
    let mut context = command_context(provider, model, &settings);

    assert!(matches!(handle(&mut context, "hello"), Outcome::Ignored));
}

#[test]
fn exits() {
    let settings = ProviderSettings::defaults();
    let provider = Provider::from("Ollama");
    let model = Model::from("llama3.2");
    let mut context = command_context(provider, model, &settings);

    assert!(matches!(handle(&mut context, "/exit"), Outcome::Exit));
}

#[test]
fn sets_llama_cpp_provider_and_default_model() {
    let settings = ProviderSettings::defaults();
    let provider = Provider::from("Ollama");
    let model = Model::from("llama3.2");
    let mut context = command_context(provider, model, &settings);

    assert!(matches!(
        handle(&mut context, "/provider llama.cpp"),
        Outcome::Handled
    ));

    assert_eq!(context.provider.name, "llama.cpp");
    assert_eq!(context.model.name, "local-model");
}

#[test]
fn opens_provider_menu_without_args() {
    let settings = ProviderSettings::defaults();
    let provider = Provider::from("Ollama");
    let model = Model::from("llama3.2");
    let mut context = command_context(provider, model, &settings);

    assert!(matches!(
        handle(&mut context, "/provider"),
        Outcome::OpenProviderMenu
    ));
}

#[test]
fn opens_model_menu_without_args() {
    let settings = ProviderSettings::defaults();
    let provider = Provider::from("Ollama");
    let model = Model::from("llama3.2");
    let mut context = command_context(provider, model, &settings);

    assert!(matches!(
        handle(&mut context, "/model"),
        Outcome::OpenModelMenu
    ));
}

#[test]
fn strips_llama_cpp_model_extension() {
    let settings = ProviderSettings::defaults();
    let provider = Provider::from("llama.cpp");
    let model = Model::from("local-model");
    let mut context = command_context(provider, model, &settings);

    assert!(matches!(
        handle(&mut context, "/model qwen.gguf"),
        Outcome::Handled
    ));

    assert_eq!(context.model.name, "qwen");
}

#[test]
fn unknown_provider_reports_usage() {
    let settings = ProviderSettings::defaults();
    let mut context = command_context(Provider::from("Ollama"), Model::from("llama3.2"), &settings);
    assert_eq!(handle(&mut context, "/provider  foo "), Outcome::Handled);
    assert_eq!(context.provider.name, "Ollama");
    assert_eq!(
        context.take_diagnostics(),
        vec!["Unknown provider: foo. Usage: /provider ollama|llama.cpp".to_string()]
    );
}

#[test]
fn provider_names_are_case_insensitive_and_report_change() {
    let settings = ProviderSettings::defaults();
    let mut context = command_context(Provider::from("llama.cpp"), Model::from("x"), &settings);
    assert_eq!(handle(&mut context, "/provider OLLAMA"), Outcome::Handled);
    assert_eq!(context.provider.name, "Ollama");
    assert_eq!(context.model.name, "llama3.2");
    assert_eq!(
        context.take_diagnostics(),
        vec!["Provider set to Ollama. Model set to llama3.2.".to_string()]
    );
}

#[test]
fn model_extension_is_kept_for_ollama_and_unknown_commands_are_ignored() {
    let settings = ProviderSettings::defaults();
    let mut context = command_context(Provider::from("Ollama"), Model::from("x"), &settings);
    assert_eq!(handle(&mut context, "/model qwen.GGUF"), Outcome::Handled);
    assert_eq!(context.model.name, "qwen.GGUF");
    assert_eq!(handle(&mut context, "/"), Outcome::Ignored);
    assert_eq!(handle(&mut context, "/help"), Outcome::Ignored);
    assert_eq!(handle(&mut context, "/exit now"), Outcome::Exit);
    assert_eq!(
        context.take_diagnostics(),
        vec!["Model set to qwen.GGUF.".to_string()]
    );
}

#[test]
fn llama_cpp_upper_case_extension_is_stripped() {
    let settings = ProviderSettings::defaults();
    let mut context = command_context(Provider::from("llama.cpp"), Model::from("x"), &settings);
    assert_eq!(handle(&mut context, "/model Big.GGUF"), Outcome::Handled);
    assert_eq!(context.model.name, "Big");
}
