use icebreaker::assistant::{Backend, Message, Reply, Token};
use icebreaker::boot::{
    completions_url, download_stage, host, loading_stage, model_stage, select_build, Accelerator,
    Artifact, Reporter, FALLBACK_BUILD, GPU_LAYERS, HOST_PORT,
};
use icebreaker::chat::Strategy;
use icebreaker::model::Progress;
use icebreaker::plan::Stage;
use icebreaker::ui::{machine_backend, search_title, Debounce, Link, Section};

#[test]
fn backend_is_detected_from_the_graphics_adapter() {
    assert_eq!(Backend::detect("NVIDIA GeForce RTX 4090"), Backend::Cuda);
    assert_eq!(Backend::detect("AMD Radeon RX 7900"), Backend::Rocm);
    assert_eq!(Backend::detect("Intel(R) UHD Graphics"), Backend::Cpu);
    assert_eq!(Backend::detect("NVIDIA and AMD"), Backend::Cuda);
    assert_eq!(Backend::detect("nvidia"), Backend::Cpu);
    assert!(Backend::Cuda.uses_gpu());
    assert!(Backend::Rocm.uses_gpu());
    assert!(!Backend::Cpu.uses_gpu());
}

#[test]
fn accelerators_to_download() {
    assert_eq!(Backend::Cpu.accelerator(), None);
    assert_eq!(Backend::Cuda.accelerator(), Some(Accelerator::Cuda));
    assert_eq!(Backend::Rocm.accelerator(), Some(Accelerator::Hip));
}

#[test]
fn newest_installed_build_wins() {
    assert_eq!(select_build(&vec![5000, 6100, 6500], Some(7000)), 6500);
    assert_eq!(select_build(&vec![], Some(7000)), 7000);
    assert_eq!(select_build(&vec![], None), FALLBACK_BUILD);
    assert_eq!(FALLBACK_BUILD, 6756);
}

#[test]
fn server_settings() {
    assert_eq!(HOST_PORT, 8080);
    assert_eq!(GPU_LAYERS, 80);
    assert_eq!(host(), "127.0.0.1");
    assert_eq!(completions_url(), "http://localhost:8080/v1/chat/completions");
}

#[test]
fn download_stages() {
    assert_eq!(download_stage(Artifact::Server), "Downloading llama-server...");
    assert_eq!(download_stage(Artifact::Backend(Accelerator::Cuda)), "Downloading CUDA backend...");
    assert_eq!(download_stage(Artifact::Backend(Accelerator::Hip)), "Downloading ROCm backend...");
    assert_eq!(model_stage(), "Downloading model...");
    assert_eq!(loading_stage(), ("Loading model...".to_owned(), 99));
}

#[test]
fn each_percentage_is_reported_once_in_a_row() {
    let mut reporter = Reporter::new();
    assert!(reporter.admits(0));
    assert!(!reporter.admits(0));
    assert!(reporter.admits(1));
    assert!(!reporter.admits(1));
    assert!(reporter.admits(0));
}

#[test]
fn messages_have_roles() {
    assert_eq!(Message::System("s".to_owned()).to_tuple(), ("system", "s"));
    assert_eq!(Message::Assistant("a".to_owned()).to_tuple(), ("assistant", "a"));
    assert_eq!(Message::User("u".to_owned()).to_tuple(), ("user", "u"));
}

#[test]
fn empty_reply_and_tokens() {
    let reply = Reply::empty();
    assert!(reply.content.is_empty() && reply.reasoning.is_none() && reply.last_token.is_none());
    assert_eq!(Token::Talking("x".to_owned()).clone(), Token::Talking("x".to_owned()));
    assert_eq!(Strategy::default(), Strategy { search: false });
}

#[test]
fn progress_values() {
    let p = Progress { total: Some(100), downloaded: 50, speed: 7 };
    assert_eq!(p, Progress { total: Some(100), downloaded: 50, speed: 7 });
}

#[test]
fn interface_names() {
    assert_eq!(Section::Storage.title(), "Storage");
    assert_eq!(Section::Theme.title(), "Theme");
    assert_eq!(Section::Mcp.title(), "MCP");
    assert_eq!(Link::Rust.url(), "https://rust-lang.org");
    assert_eq!(Link::Iced.url(), "https://iced.rs");
    assert_eq!(Link::HuggingFace.url(), "https://huggingface.co");
    assert_eq!(Link::LlamaCpp.url(), "https://github.com/ggerganov/llama.cpp");
    assert_ne!(Stage::Pending, Stage::Done);
}

#[test]
fn search_titles_and_backend() {
    assert_eq!(search_title(None), "Models - Icebreaker");
    assert_eq!(search_title(Some(&icebreaker::model::Id("unsloth/Qwen3-8B-GGUF".to_owned()))), "Qwen3-8B-GGUF - Icebreaker");
    assert_eq!(machine_backend(Some("NVIDIA RTX")), Backend::Cuda);
    assert_eq!(machine_backend(None), Backend::Cpu);
}

#[test]
fn search_waits_for_typing_to_pause() {
    let mut debounce = Debounce::new();
    debounce.changed();
    debounce.changed();
    assert!(!debounce.cooled());
    assert!(debounce.cooled());
    assert!(debounce.cooled());
}
