//! Language models and their files.
use vstd::prelude::*;
use crate::text;
use crate::text::StrSliceExecFns;

verus! {

/// The identifier of a model: `author/name`.
#[derive(Debug, PartialEq, Eq)]
pub struct Id(pub String);

impl Clone for Id {
    fn clone(&self) -> (r: Self)
        ensures
            r == *self,
    {
        Id(self.0.clone())
    }
}

/// The name part of a model identifier: what follows the first `/`, or the
/// whole identifier when it has none.
pub open spec fn name_of(id: Seq<char>) -> Seq<char> {
    match text::first_index_of(id, '/') {
        Some(i) => id.skip(i + 1),
        None => id,
    }
}

/// The author part of a model identifier: what precedes the first `/`, or the
/// whole identifier when it has none.
pub open spec fn author_of(id: Seq<char>) -> Seq<char> {
    match text::first_index_of(id, '/') {
        Some(i) => id.take(i),
        None => id,
    }
}

impl View for Id {
    type V = Seq<char>;

    open spec fn view(&self) -> Seq<char> {
        self.0@
    }
}

impl DeepView for Id {
    type V = Seq<char>;

    open spec fn deep_view(&self) -> Seq<char> {
        self.0@
    }
}

impl Id {
    /// The name of the model.
    pub fn name(&self) -> (name: &str)
        ensures
            name@ == name_of(self@),
    {
        let chars = text::chars_of(self.0.as_str());
        let n: usize = chars.len();
        match text::find_char(&chars, '/') {
            Some(i) => self.0.as_str().substring_char(i + 1, n),
            None => self.0.as_str(),
        }
    }

    /// The author of the model.
    pub fn author(&self) -> (author: &str)
        ensures
            author@ == author_of(self@),
    {
        let chars = text::chars_of(self.0.as_str());
        match text::find_char(&chars, '/') {
            Some(i) => self.0.as_str().substring_char(0, i),
            None => self.0.as_str(),
        }
    }
}

/// A file of a model.
#[derive(Debug, PartialEq, Eq)]
pub struct File {
    pub model: Id,
    pub name: String,
}

/// The mathematical form of a [`File`].
pub struct FileView {
    pub model: Seq<char>,
    pub name: Seq<char>,
}

impl View for File {
    type V = FileView;

    open spec fn view(&self) -> FileView {
        FileView { model: self.model@, name: self.name@ }
    }
}

impl DeepView for File {
    type V = FileView;

    open spec fn deep_view(&self) -> FileView {
        self@
    }
}

impl Clone for File {
    fn clone(&self) -> (r: Self)
        ensures
            r == *self,
    {
        File { model: self.model.clone(), name: self.name.clone() }
    }
}

/// The files among `names` that hold GGUF weights (their name ends in
/// `.gguf`), each as a file of `model`, in order.
pub open spec fn gguf_files_of(model: Seq<char>, names: Seq<Seq<char>>) -> Seq<FileView>
    decreases names.len(),
{
    if names.len() == 0 {
        Seq::empty()
    } else {
        let rest = gguf_files_of(model, names.drop_last());
        if text::ends_with(names.last(), ".gguf"@) {
            rest.push(FileView { model, name: names.last() })
        } else {
            rest
        }
    }
}

/// The GGUF files of a list of names are those of its first part followed by
/// those of the rest, in order.
pub proof fn lemma_gguf_files_concat(model: Seq<char>, a: Seq<Seq<char>>, b: Seq<Seq<char>>)
    ensures
        gguf_files_of(model, a + b) == gguf_files_of(model, a) + gguf_files_of(model, b),
    decreases b.len(),
{
    if b.len() == 0 {
        assert(a + b =~= a);
        assert(gguf_files_of(model, a) + gguf_files_of(model, b) =~= gguf_files_of(model, a));
    } else {
        lemma_gguf_files_concat(model, a, b.drop_last());
        assert((a + b).drop_last() =~= a + b.drop_last());
        assert((a + b).last() == b.last());
        if text::ends_with(b.last(), ".gguf"@) {
            assert(gguf_files_of(model, a) + gguf_files_of(model, b) =~= (gguf_files_of(model, a)
                + gguf_files_of(model, b.drop_last())).push(FileView { model, name: b.last() }));
        }
    }
}

/// One name is one file of the model, with that name, exactly when the name
/// ends in `.gguf`.
pub proof fn lemma_gguf_file_of_one(model: Seq<char>, name: Seq<char>)
    ensures
        gguf_files_of(model, seq![name]) == if text::ends_with(name, ".gguf"@) {
            seq![FileView { model, name }]
        } else {
            Seq::<FileView>::empty()
        },
{
    let one = seq![name];
    assert(one.drop_last() =~= Seq::<Seq<char>>::empty());
    assert(gguf_files_of(model, Seq::<Seq<char>>::empty()) == Seq::<FileView>::empty());
    assert(one.last() == name);
    assert(Seq::<FileView>::empty().push(FileView { model, name }) =~= seq![FileView { model, name }]);
}

/// The GGUF files among the files of a listed model.
pub fn gguf_files(model: &Id, names: &Vec<String>) -> (files: Vec<File>)
    ensures
        files.deep_view() == gguf_files_of(model@, names.deep_view()),
{
    let mut files: Vec<File> = Vec::new();
    let mut i: usize = 0;
    while i < names.len()
        invariant
            i <= names.len(),
            files.deep_view() == gguf_files_of(model@, names.deep_view().take(i as int)),
        decreases names.len() - i,
    {
        proof {
            assert(names.deep_view().take(i + 1).drop_last() == names.deep_view().take(i as int));
            assert(names.deep_view().take(i + 1).last() == names@[i as int]@);
        }
        if text::ends_with_str(names[i].as_str(), ".gguf") {
            let ghost before = files.deep_view();
            files.push(File { model: model.clone(), name: names[i].clone() });
            assert(files.deep_view() == before.push(FileView { model: model@, name: names@[i as int]@ }));
        }
        i += 1;
    }
    assert(names.deep_view().take(i as int) == names.deep_view());
    files
}

/// How many times a model has been downloaded.
#[derive(Debug, Clone, Copy, PartialEq, Eq, Structural)]
pub struct Downloads(pub u64);

/// How many likes a model has.
#[derive(Debug, Clone, Copy, PartialEq, Eq, Structural)]
pub struct Likes(pub u64);

impl Likes {
    /// The count in decimal.
    pub fn to_text(&self) -> (s: String)
        ensures
            s@ == text::decimal_of(self.0 as nat),
    {
        text::decimal(self.0)
    }
}

/// Whether a model is gated: a flag, or the kind of gate.
#[derive(Debug)]
pub enum Gated {
    Bool(bool),
    Other(String),
}

/// A model as the Hugging Face listing describes it.
#[derive(Debug)]
pub struct Listing {
    pub id: Id,
    /// When the model last changed, in seconds since the Unix epoch.
    pub last_modified: i64,
    pub downloads: Downloads,
    pub likes: Likes,
    pub gated: Gated,
    /// The names of the files of the model.
    pub siblings: Vec<String>,
}

/// A model that can be downloaded: its GGUF files, and how popular it is.
#[derive(Debug)]
pub struct Model {
    pub id: Id,
    /// When the model last changed, in seconds since the Unix epoch.
    pub last_modified: i64,
    pub downloads: Downloads,
    pub likes: Likes,
    pub files: Vec<File>,
}

/// The mathematical form of a [`Model`].
pub struct ModelView {
    pub id: Seq<char>,
    pub last_modified: i64,
    pub downloads: Downloads,
    pub likes: Likes,
    pub files: Seq<FileView>,
}

impl View for Model {
    type V = ModelView;

    open spec fn view(&self) -> ModelView {
        ModelView {
            id: self.id@,
            last_modified: self.last_modified,
            downloads: self.downloads,
            likes: self.likes,
            files: self.files.deep_view(),
        }
    }
}

impl DeepView for Model {
    type V = ModelView;

    open spec fn deep_view(&self) -> ModelView {
        self@
    }
}

/// Whether a listed model can be downloaded without asking for access.
pub open spec fn is_open(gated: &Gated) -> bool {
    gated matches Gated::Bool(false)
}

/// The model that a listing describes.
pub open spec fn model_of(l: &Listing) -> ModelView {
    ModelView {
        id: l.id@,
        last_modified: l.last_modified,
        downloads: l.downloads,
        likes: l.likes,
        files: gguf_files_of(l.id@, l.siblings.deep_view()),
    }
}

/// The models of the listing that are not gated, in order.
pub open spec fn models_of(listings: Seq<Listing>) -> Seq<ModelView>
    decreases listings.len(),
{
    if listings.len() == 0 {
        Seq::empty()
    } else {
        let rest = models_of(listings.drop_last());
        if is_open(&listings.last().gated) {
            rest.push(model_of(&listings.last()))
        } else {
            rest
        }
    }
}

/// The models of a list of listings are those of its first part followed by
/// those of the rest, in order.
pub proof fn lemma_models_concat(a: Seq<Listing>, b: Seq<Listing>)
    ensures
        models_of(a + b) == models_of(a) + models_of(b),
    decreases b.len(),
{
    if b.len() == 0 {
        assert(a + b =~= a);
        assert(models_of(a) + models_of(b) =~= models_of(a));
    } else {
        lemma_models_concat(a, b.drop_last());
        assert((a + b).drop_last() =~= a + b.drop_last());
        assert((a + b).last() == b.last());
        if is_open(&b.last().gated) {
            assert(models_of(a) + models_of(b) =~= (models_of(a) + models_of(b.drop_last())).push(
                model_of(&b.last()),
            ));
        }
    }
}

/// A listing gives a model exactly when it is not gated (`gated` is
/// `false`), and then the model keeps the listing's id, date, downloads and
/// likes, with the listing's GGUF files as its files.
pub proof fn lemma_model_of_one(l: Listing)
    ensures
        l.gated matches Gated::Bool(false) ==> models_of(seq![l]) == seq![
            ModelView {
                id: l.id@,
                last_modified: l.last_modified,
                downloads: l.downloads,
                likes: l.likes,
                files: gguf_files_of(l.id@, l.siblings.deep_view()),
            },
        ],
        !(l.gated matches Gated::Bool(false)) ==> models_of(seq![l]) == Seq::<ModelView>::empty(),
{
    let one = seq![l];
    assert(one.drop_last() =~= Seq::<Listing>::empty());
    assert(models_of(Seq::<Listing>::empty()) == Seq::<ModelView>::empty());
    assert(one.last() == l);
    assert(Seq::<ModelView>::empty().push(model_of(&l)) =~= seq![model_of(&l)]);
}

/// The models of a Hugging Face listing that can be downloaded, each with
/// its GGUF files.
pub fn models(listings: Vec<Listing>) -> (models: Vec<Model>)
    ensures
        models.deep_view() == models_of(listings@),
{
    let ghost all = listings@;
    let mut models: Vec<Model> = Vec::new();
    let mut i: usize = 0;
    while i < listings.len()
        invariant
            i <= listings.len(),
            listings@ == all,
            models.deep_view() == models_of(all.take(i as int)),
        decreases listings.len() - i,
    {
        assert(all.take(i + 1).drop_last() =~= all.take(i as int));
        assert(all.take(i + 1).last() == all[i as int]);
        let listing = &listings[i];
        if let Gated::Bool(false) = listing.gated {
            let files = gguf_files(&listing.id, &listing.siblings);
            let model = Model {
                id: listing.id.clone(),
                last_modified: listing.last_modified,
                downloads: listing.downloads,
                likes: listing.likes,
                files,
            };
            let ghost before = models.deep_view();
            models.push(model);
            assert(models.deep_view() =~= before.push(model_of(&all[i as int])));
        }
        i += 1;
    }
    assert(all.take(i as int) =~= all);
    models
}

impl Model {
    /// The name of the model.
    pub fn name(&self) -> (name: &str)
        ensures
            name@ == name_of(self.id@),
    {
        self.id.name()
    }

    /// The author of the model.
    pub fn author(&self) -> (author: &str)
        ensures
            author@ == author_of(self.id@),
    {
        self.id.author()
    }
}

/// The address of the model listing of the Hugging Face API.
pub open spec fn models_url_of() -> Seq<char> {
    "https://huggingface.co/api/models"@
}

/// The address of the model listing of the Hugging Face API.
pub fn models_url() -> (u: String)
    ensures
        u@ == models_url_of(),
{
    "https://huggingface.co/api/models".to_owned()
}

/// The query of a search for `query` among the text-generation models with
/// GGUF files, at most a hundred, with their files.
pub open spec fn search_query_of(query: Seq<char>) -> Seq<(Seq<char>, Seq<char>)> {
    seq![
        ("search"@, query),
        ("filter"@, "text-generation"@),
        ("filter"@, "gguf"@),
        ("limit"@, "100"@),
        ("full"@, "true"@),
    ]
}

/// The query parameters of a model search for `query`.
pub fn search_query(query: &str) -> (params: Vec<(String, String)>)
    ensures
        params@.map_values(|p: (String, String)| (p.0@, p.1@)) == search_query_of(query@),
{
    let params = vec![
        ("search".to_owned(), query.to_owned()),
        ("filter".to_owned(), "text-generation".to_owned()),
        ("filter".to_owned(), "gguf".to_owned()),
        ("limit".to_owned(), "100".to_owned()),
        ("full".to_owned(), "true".to_owned()),
    ];
    assert(params@.map_values(|p: (String, String)| (p.0@, p.1@)) =~= search_query_of(query@));
    params
}

/// The address of the README of a model.
pub open spec fn readme_url_of(id: Seq<char>) -> Seq<char> {
    "https://huggingface.co/"@ + id + "/raw/main/README.md"@
}

/// The address of the README of a model.
pub fn readme_url(id: &Id) -> (u: String)
    ensures
        u@ == readme_url_of(id@),
{
    let mut u = "https://huggingface.co/".to_owned();
    u.append(id.0.as_str());
    u.append("/raw/main/README.md");
    u
}

/// The progress of a download: bytes downloaded of the total, if known, and
/// the speed in bytes per second.
#[derive(Debug, Clone, Copy, PartialEq, Eq, Structural)]
pub struct Progress {
    pub total: Option<u64>,
    pub downloaded: u64,
    pub speed: u64,
}

} // verus!
