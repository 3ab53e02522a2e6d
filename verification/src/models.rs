//! The catalogue of speech models: file names, download addresses, what a
//! models directory offers, and which model file a run uses.

use vstd::prelude::*;
use crate::text::{
    chars_of, contains_run, lemma_replaced_copies, lemma_replaced_hit, occurs_at_spec, ends_with_chars, has_prefix, has_suffix, replace_chars, replaced, starts_with_chars,
    string_from_chars,
};

verus! {

/// Name of the model that ships with the application.
pub open spec fn bundled_model() -> Seq<char> {
    "tiny.en"@
}

/// File name under which a model is stored: `ggml-<name>.bin`.
pub open spec fn model_file(name: Seq<char>) -> Seq<char> {
    "ggml-"@ + name + ".bin"@
}

/// Address from which a model is downloaded.
pub open spec fn model_url(name: Seq<char>) -> Seq<char> {
    "https://huggingface.co/ggerganov/whisper.cpp/resolve/main/"@ + model_file(name)
}

/// The file name of model `name`.
pub fn model_file_name(name: &str) -> (f: String)
    ensures
        f@ == model_file(name@),
{
    let mut f = String::from_str("ggml-");
    f.append(name);
    f.append(".bin");
    f
}

/// The download address of model `name`.
pub fn model_download_url(name: &str) -> (u: String)
    ensures
        u@ == model_url(name@),
{
    let mut u = String::from_str("https://huggingface.co/ggerganov/whisper.cpp/resolve/main/");
    let f = model_file_name(name);
    u.append(f.as_str());
    proof {
        assert(u@ =~= model_url(name@));
    }
    u
}

/// One entry of the models directory.
#[derive(Clone, Debug)]
pub struct ModelFile {
    /// The entry's file name.
    pub file_name: String,
    /// Whether the entry is a regular file.
    pub is_file: bool,
}

/// An entry that holds a model: a regular file named `ggml-*.bin`.
pub open spec fn is_model_entry(e: ModelFile) -> bool {
    e.is_file && has_prefix(e.file_name@, "ggml-"@) && has_suffix(e.file_name@, ".bin"@)
}

/// The model name read off a file name: every `ggml-` removed, then every
/// `.bin` removed.
pub open spec fn model_name_of(file_name: Seq<char>) -> Seq<char> {
    replaced(replaced(file_name, "ggml-"@, ""@), ".bin"@, ""@)
}

/// The names of the models that the entries hold, in directory order.
pub open spec fn listed_models(entries: Seq<ModelFile>) -> Seq<Seq<char>>
    decreases entries.len(),
{
    if entries.len() == 0 {
        seq![]
    } else {
        let before = listed_models(entries.drop_last());
        if is_model_entry(entries.last()) {
            before.push(model_name_of(entries.last().file_name@))
        } else {
            before
        }
    }
}

/// The models on offer: those listed, and the bundled one at the end when it
/// is not among them.
pub open spec fn offered_models(entries: Seq<ModelFile>) -> Seq<Seq<char>> {
    let listed = listed_models(entries);
    if listed.contains(bundled_model()) {
        listed
    } else {
        listed.push(bundled_model())
    }
}

/// The views of a list of strings.
pub open spec fn names_of(v: Seq<String>) -> Seq<Seq<char>> {
    v.map_values(|s: String| s@)
}

/// Whether some name in `names` equals `name`.
fn contains_name(names: &Vec<String>, name: &String) -> (b: bool)
    ensures
        b == names_of(names@).contains(name@),
{
    let n = names.len();
    let mut k: usize = 0;
    while k < n
        invariant
            n == names.len(),
            0 <= k <= n,
            forall|q: int| 0 <= q < k ==> names@[q]@ != name@,
        decreases n - k,
    {
        if names[k] == *name {
            assert(names_of(names@)[k as int] == name@);
            return true;
        }
        k = k + 1;
    }
    proof {
        if names_of(names@).contains(name@) {
            let q = choose|q: int| 0 <= q < names_of(names@).len() && names_of(names@)[q] == name@;
            assert(names@[q]@ == name@);
        }
    }
    false
}

/// The model held by a directory entry, if it holds one.
fn model_of_entry(e: &ModelFile) -> (m: Option<String>)
    ensures
        is_model_entry(*e) ==> m is Some && m->0@ == model_name_of(e.file_name@),
        !is_model_entry(*e) ==> m is None,
{
    if !e.is_file {
        return None;
    }
    let cs = chars_of(e.file_name.as_str());
    let prefix = chars_of("ggml-");
    let suffix = chars_of(".bin");
    proof {
        reveal_strlit("ggml-");
        reveal_strlit(".bin");
    }
    if starts_with_chars(&cs, &prefix) && ends_with_chars(&cs, &suffix) {
        let empty: Vec<char> = Vec::new();
        let without_prefix = replace_chars(&cs, &prefix, &empty);
        let name = replace_chars(&without_prefix, &suffix, &empty);
        proof {
            reveal_strlit("");
            assert(empty@ =~= ""@);
        }
        Some(string_from_chars(&name))
    } else {
        None
    }
}

/// The models a directory offers: for each regular file named
/// `ggml-*.bin`, in order, the name left when `ggml-` and `.bin` are removed;
/// then `tiny.en` when it is not yet among them.
pub fn available_models(entries: &Vec<ModelFile>) -> (models: Vec<String>)
    ensures
        names_of(models@) == offered_models(entries@),
{
    let n = entries.len();
    let mut models: Vec<String> = Vec::new();
    let mut i: usize = 0;
    while i < n
        invariant
            n == entries.len(),
            0 <= i <= n,
            names_of(models@) == listed_models(entries@.take(i as int)),
        decreases n - i,
    {
        let ghost before = models@;
        assert(entries@.take(i + 1).drop_last() =~= entries@.take(i as int));
        assert(entries@.take(i + 1).last() == entries@[i as int]);
        match model_of_entry(&entries[i]) {
            Some(m) => {
                models.push(m);
                assert(names_of(models@) =~= names_of(before).push(
                    model_name_of(entries@[i as int].file_name@),
                ));
            },
            None => {},
        }
        i = i + 1;
    }
    assert(entries@.take(n as int) =~= entries@);
    let bundled = String::from_str("tiny.en");
    if !contains_name(&models, &bundled) {
        let ghost before = models@;
        models.push(bundled);
        assert(names_of(models@) =~= names_of(before).push(bundled_model()));
    }
    models
}

/// Where the model file of a run is taken from.
#[derive(Clone, Copy, Debug, PartialEq, Eq, Structural)]
pub enum ModelLocation {
    /// The models directory in the application's local data.
    Downloaded,
    /// The `models` directory next to the executable.
    Bundled,
    /// The `../models` directory of the development tree.
    DevTree,
}

/// The first of downloaded, bundled and development copies that exists; the
/// downloaded path when none does, so the engine reports the missing file.
pub fn locate_model(downloaded_exists: bool, bundled_exists: bool, dev_exists: bool) -> (l:
    ModelLocation)
    ensures
        downloaded_exists ==> l == ModelLocation::Downloaded,
        !downloaded_exists && bundled_exists ==> l == ModelLocation::Bundled,
        !downloaded_exists && !bundled_exists && dev_exists ==> l == ModelLocation::DevTree,
        !downloaded_exists && !bundled_exists && !dev_exists ==> l == ModelLocation::Downloaded,
{
    if downloaded_exists {
        ModelLocation::Downloaded
    } else if bundled_exists {
        ModelLocation::Bundled
    } else if dev_exists {
        ModelLocation::DevTree
    } else {
        ModelLocation::Downloaded
    }
}

/// The bundled model is always on offer.
pub proof fn lemma_bundled_model_offered(entries: Seq<ModelFile>)
    ensures
        offered_models(entries).contains(bundled_model()),
{
    let listed = listed_models(entries);
    if !listed.contains(bundled_model()) {
        assert(listed.push(bundled_model())[listed.len() as int] == bundled_model());
    }
}

/// A model stored under its file name is read back under its own name, as
/// long as that name holds neither `ggml-` nor `.bin`; its file is one that a
/// directory listing takes for a model.
pub proof fn lemma_stored_model_listed_by_name(name: Seq<char>)
    requires
        !contains_run(name, "ggml-"@),
        !contains_run(name, ".bin"@),
    ensures
        has_prefix(model_file(name), "ggml-"@),
        has_suffix(model_file(name), ".bin"@),
        model_name_of(model_file(name)) == name,
{
    reveal_strlit("ggml-");
    reveal_strlit(".bin");
    reveal_strlit("");
    let pre = "ggml-"@;
    let suf = ".bin"@;
    let f = model_file(name);
    let n = name.len() as int;
    assert(f.take(5) =~= pre);
    assert(f.skip(f.len() - 4) =~= suf);
    // removing the prefix
    assert(occurs_at_spec(f, pre, 0)) by {
        assert(f.subrange(0, 5) =~= pre);
    }
    lemma_replaced_hit(f, pre, ""@, 0);
    assert(f.skip(0) =~= f);
    let g = f.skip(5);
    assert(g =~= name + suf);
    assert forall|i: int| 0 <= i < g.len() implies !occurs_at_spec(g, pre, i) by {
        if occurs_at_spec(g, pre, i) {
            if i + 5 <= n {
                assert(name.subrange(i, i + 5) =~= g.subrange(i, i + 5));
                assert(occurs_at_spec(name, pre, i));
            } else {
                assert(g[n] == '.');
                assert(g.subrange(i, i + 5)[n - i] == g[n]);
            }
        }
    }
    lemma_replaced_copies(g, pre, ""@, 0, g.len() as int);
    assert(g.skip(0) =~= g);
    assert(g.skip(g.len() as int) =~= Seq::<char>::empty());
    assert(replaced(f, pre, ""@) =~= g);
    // removing the suffix
    assert forall|i: int| 0 <= i < n implies !occurs_at_spec(g, suf, i) by {
        if occurs_at_spec(g, suf, i) {
            if i + 4 <= n {
                assert(name.subrange(i, i + 4) =~= g.subrange(i, i + 4));
                assert(occurs_at_spec(name, suf, i));
            } else {
                assert(g[n] == '.');
                assert(g.subrange(i, i + 4)[n - i] == g[n]);
            }
        }
    }
    lemma_replaced_copies(g, suf, ""@, 0, n);
    assert(occurs_at_spec(g, suf, n)) by {
        assert(g.subrange(n, n + 4) =~= suf);
    }
    lemma_replaced_hit(g, suf, ""@, n);
    assert(g.skip(n + 4) =~= Seq::<char>::empty());
    assert(g.subrange(0, n) =~= name);
    assert(model_name_of(f) =~= name);
}

/// What a model download does next.
#[derive(Clone, Copy, Debug, PartialEq, Eq, Structural)]
pub enum DownloadAction {
    /// Go on with the download.
    Continue,
    /// Write these many bytes just read to the model file, then read again.
    WriteChunk(usize),
    /// The body has ended: report the download complete.
    Complete,
    /// Report an error and give up.
    Abort,
}

/// After the response head: go on on a success status, give up otherwise.
pub fn download_after_status(success: bool) -> (a: DownloadAction)
    ensures
        success ==> a == DownloadAction::Continue,
        !success ==> a == DownloadAction::Abort,
{
    if success {
        DownloadAction::Continue
    } else {
        DownloadAction::Abort
    }
}

/// After one read of the body (`None` when the read failed): a failed read
/// gives up, an empty read ends the body, any other read is written out.
pub fn download_after_read(read: Option<usize>) -> (a: DownloadAction)
    ensures
        read is None ==> a == DownloadAction::Abort,
        read == Some(0usize) ==> a == DownloadAction::Complete,
        read matches Some(n) ==> (n > 0 ==> a == DownloadAction::WriteChunk(n)),
{
    match read {
        None => DownloadAction::Abort,
        Some(0) => DownloadAction::Complete,
        Some(n) => DownloadAction::WriteChunk(n),
    }
}

/// The download address of any model is the fixed Hugging Face prefix,
/// then `ggml-`, the model's own name and `.bin`; two different models are
/// downloaded from two different addresses.
pub proof fn lemma_model_url_shape(name: Seq<char>, other: Seq<char>)
    ensures
        model_url(name) == "https://huggingface.co/ggerganov/whisper.cpp/resolve/main/ggml-"@ + name
            + ".bin"@,
        model_file(name) == "ggml-"@ + name + ".bin"@,
        name != other ==> model_url(name) != model_url(other),
        name != other ==> model_file(name) != model_file(other),
{
    reveal_strlit("https://huggingface.co/ggerganov/whisper.cpp/resolve/main/ggml-");
    reveal_strlit("https://huggingface.co/ggerganov/whisper.cpp/resolve/main/");
    reveal_strlit("ggml-");
    reveal_strlit(".bin");
    let p = "https://huggingface.co/ggerganov/whisper.cpp/resolve/main/"@;
    assert("https://huggingface.co/ggerganov/whisper.cpp/resolve/main/ggml-"@ =~= p + "ggml-"@);
    assert(model_url(name) =~= "https://huggingface.co/ggerganov/whisper.cpp/resolve/main/ggml-"@
        + name + ".bin"@);
    if name != other && model_url(name) == model_url(other) {
        let u = model_url(name);
        let k = p.len() + 5int;
        assert(name.len() == other.len());
        assert(u.subrange(k, k + name.len() as int) =~= name);
        assert(model_url(other).subrange(k, k + other.len() as int) =~= other);
    }
    if name != other && model_file(name) == model_file(other) {
        let f = model_file(name);
        assert(name.len() == other.len());
        assert(f.subrange(5, 5 + name.len() as int) =~= name);
        assert(model_file(other).subrange(5, 5 + other.len() as int) =~= other);
    }
}

/// `m` is the model that entry `e` gives: `e` is a regular file whose name
/// begins with `ggml-` and ends with `.bin`, and `m` is that name with
/// `ggml-` and `.bin` removed.
pub open spec fn gives_model(e: ModelFile, m: Seq<char>) -> bool {
    let f = e.file_name@;
    &&& e.is_file
    &&& f.len() >= 5 && f.subrange(0, 5) == "ggml-"@
    &&& f.len() >= 4 && f.subrange(f.len() - 4, f.len() as int) == ".bin"@
    &&& m == model_name_of(f)
}

/// The entry that gives the `k`-th listed model.
proof fn listed_model_source(entries: Seq<ModelFile>, k: int) -> (i: int)
    requires
        0 <= k < listed_models(entries).len(),
    ensures
        0 <= i < entries.len(),
        gives_model(entries[i], listed_models(entries)[k]),
    decreases entries.len(),
{
    reveal_strlit("ggml-");
    reveal_strlit(".bin");
    let before = entries.drop_last();
    let e = entries.last();
    let f = e.file_name@;
    if k < listed_models(before).len() {
        assert(listed_models(entries)[k] == listed_models(before)[k]);
        let i = listed_model_source(before, k);
        assert(entries[i] == before[i]);
        i
    } else {
        assert(is_model_entry(e));
        assert(f.take(5) =~= f.subrange(0, 5));
        assert(f.skip(f.len() - 4) =~= f.subrange(f.len() - 4, f.len() as int));
        assert(listed_models(entries)[k] == model_name_of(f));
        entries.len() - 1
    }
}

/// Each entry that gives a model has that model listed.
proof fn lemma_model_entry_listed(entries: Seq<ModelFile>, i: int)
    requires
        0 <= i < entries.len(),
        gives_model(entries[i], model_name_of(entries[i].file_name@)),
    ensures
        listed_models(entries).contains(model_name_of(entries[i].file_name@)),
    decreases entries.len(),
{
    reveal_strlit("ggml-");
    reveal_strlit(".bin");
    let before = entries.drop_last();
    let lb = listed_models(before);
    let m = model_name_of(entries[i].file_name@);
    if i < before.len() {
        assert(entries[i] == before[i]);
        lemma_model_entry_listed(before, i);
        let q = choose|q: int| 0 <= q < lb.len() && lb[q] == m;
        assert(listed_models(entries)[q] == lb[q]);
    } else {
        let e = entries.last();
        let f = e.file_name@;
        assert(entries[i] == e);
        assert(f.take(5) =~= f.subrange(0, 5));
        assert(f.skip(f.len() - 4) =~= f.subrange(f.len() - 4, f.len() as int));
        assert(is_model_entry(e));
        assert(listed_models(entries)[lb.len() as int] == m);
    }
}

/// Each model listed from a directory is given by one of its entries (a
/// regular file named `ggml-*.bin`), and each such entry's model is listed.
/// Everything on offer is listed, or is the bundled `tiny.en`.
pub proof fn lemma_listed_models_come_from_model_files(entries: Seq<ModelFile>)
    ensures
        forall|k: int|
            #![trigger listed_models(entries)[k]]
            0 <= k < listed_models(entries).len() ==> exists|i: int|
                #![trigger entries[i]]
                0 <= i < entries.len() && gives_model(entries[i], listed_models(entries)[k]),
        forall|i: int|
            0 <= i < entries.len() && #[trigger] gives_model(
                entries[i],
                model_name_of(entries[i].file_name@),
            ) ==> listed_models(entries).contains(model_name_of(entries[i].file_name@)),
        forall|m: Seq<char>|
            #[trigger] offered_models(entries).contains(m) ==> m == "tiny.en"@ || listed_models(
                entries,
            ).contains(m),
{
    assert forall|k: int|
        #![trigger listed_models(entries)[k]]
        0 <= k < listed_models(entries).len() implies exists|i: int|
            #![trigger entries[i]]
            0 <= i < entries.len() && gives_model(entries[i], listed_models(entries)[k]) by {
        let i = listed_model_source(entries, k);
        assert(gives_model(entries[i], listed_models(entries)[k]));
    }
    assert forall|i: int|
        0 <= i < entries.len() && #[trigger] gives_model(
            entries[i],
            model_name_of(entries[i].file_name@),
        ) implies listed_models(entries).contains(model_name_of(entries[i].file_name@)) by {
        lemma_model_entry_listed(entries, i);
    }
    assert forall|m: Seq<char>| #[trigger] offered_models(entries).contains(m) implies m
        == "tiny.en"@ || listed_models(entries).contains(m) by {
        let listed = listed_models(entries);
        if !listed.contains(bundled_model()) {
            let q = choose|q: int|
                0 <= q < offered_models(entries).len() && offered_models(entries)[q] == m;
            if q < listed.len() {
                assert(listed[q] == m);
            }
        }
    }
}

} // verus!
