use icebreaker::model::{
    gguf_files, models, readme_url, search_query, Downloads, Gated, Id, Likes, Listing,
};

fn listing(id: &str, gated: Gated, files: &[&str]) -> Listing {
    Listing {
        id: Id(id.to_owned()),
        last_modified: 1_700_000_000,
        downloads: Downloads(10),
        likes: Likes(3),
        gated,
        siblings: files.iter().map(|f| f.to_string()).collect(),
    }
}

#[test]
fn model_id_name_and_author() {
    let id = Id("unsloth/Qwen3-8B-GGUF".to_owned());
    assert_eq!(id.name(), "Qwen3-8B-GGUF");
    assert_eq!(id.author(), "unsloth");
    let bare = Id("standalone".to_owned());
    assert_eq!(bare.name(), "standalone");
    assert_eq!(bare.author(), "standalone");
    let nested = Id("a/b/c".to_owned());
    assert_eq!(nested.name(), "b/c");
    assert_eq!(nested.author(), "a");
}

#[test]
fn only_gguf_files_are_kept() {
    let id = Id("x/y".to_owned());
    let names = vec!["README.md".to_owned(), "y-Q4.gguf".to_owned(), "y.gguf.part".to_owned(), "y-Q8.gguf".to_owned()];
    let files = gguf_files(&id, &names);
    let kept: Vec<&str> = files.iter().map(|f| f.name.as_str()).collect();
    assert_eq!(kept, vec!["y-Q4.gguf", "y-Q8.gguf"]);
    assert!(files.iter().all(|f| f.model == id));
}

#[test]
fn gated_models_are_left_out() {
    let all = vec![
        listing("a/open", Gated::Bool(false), &["m.gguf", "notes.txt"]),
        listing("b/gated", Gated::Bool(true), &["m.gguf"]),
        listing("c/manual", Gated::Other("manual".to_owned()), &["m.gguf"]),
        listing("d/open", Gated::Bool(false), &[]),
    ];
    let kept = models(all);
    let names: Vec<&str> = kept.iter().map(|m| m.id.0.as_str()).collect();
    assert_eq!(names, vec!["a/open", "d/open"]);
    assert_eq!(kept[0].files.len(), 1);
    assert_eq!(kept[0].name(), "open");
    assert_eq!(kept[0].author(), "a");
    assert_eq!(kept[0].likes, Likes(3));
    assert!(kept[1].files.is_empty());
}

#[test]
fn search_query_filters_text_generation_gguf_models() {
    let params = search_query("qwen");
    let pairs: Vec<(&str, &str)> = params.iter().map(|(k, v)| (k.as_str(), v.as_str())).collect();
    assert_eq!(
        pairs,
        vec![("search", "qwen"), ("filter", "text-generation"), ("filter", "gguf"), ("limit", "100"), ("full", "true")]
    );
}

#[test]
fn readme_address() {
    assert_eq!(
        readme_url(&Id("unsloth/Qwen3-8B-GGUF".to_owned())),
        "https://huggingface.co/unsloth/Qwen3-8B-GGUF/raw/main/README.md"
    );
    assert_eq!(icebreaker::model::models_url(), "https://huggingface.co/api/models");
}

#[test]
fn likes_in_decimal() {
    assert_eq!(Likes(0).to_text(), "0");
    assert_eq!(Likes(1234).to_text(), "1234");
    assert_eq!(Likes(u64::MAX).to_text(), "18446744073709551615");
}
