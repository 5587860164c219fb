//! The shared store: one flat directory of files, as a map from name to
//! bytes, and the paths at which its entries and the uploads in flight live.
//!
//! An upload writes into a staging file of its own, in a directory beside the
//! store, and is renamed over the destination when complete, so a name always
//! holds the whole content of one finished upload: the last one to finish wins
//! and two uploads never mix. A part refused for its size leaves the
//! destination as it was and its staging file is removed. An upload cut off
//! mid-stream (the client went away) may leave its staging file behind; being
//! outside the store, it is never listed nor served.

use vstd::prelude::*;
use vstd::string::StringExecFns;
use crate::names::safe_name;
use crate::upload::{flatten, received, lemma_received_iff_within};
use crate::download::DownloadError;

verus! {

/// The store's contents: each file's name and bytes.
pub type StoreView = Map<Seq<char>, Seq<u8>>;

/// The store after an upload of `chunks` to `name`, bounded by `max` bytes:
/// a complete part replaces the file whole; a refused one changes nothing.
pub open spec fn upload_spec(store: StoreView, name: Seq<char>, max: nat, chunks: Seq<Seq<u8>>) -> StoreView {
    if safe_name(name) && received(max, chunks) is Some {
        store.insert(name, received(max, chunks)->0)
    } else {
        store
    }
}

/// What a download of `name` returns from the store.
pub open spec fn download_spec(store: StoreView, name: Seq<char>) -> Result<Seq<u8>, DownloadError> {
    if safe_name(name) && store.contains_key(name) {
        Ok(store[name])
    } else {
        Err(DownloadError::NotFound)
    }
}

/// The decimal digits of `n`.
pub open spec fn decimal(n: nat) -> Seq<char>
    decreases n,
{
    if n < 10 {
        seq![digit_char(n)]
    } else {
        decimal(n / 10) + seq![digit_char(n % 10)]
    }
}

pub open spec fn digit_char(d: nat) -> char {
    if d == 0 { '0' }
    else if d == 1 { '1' }
    else if d == 2 { '2' }
    else if d == 3 { '3' }
    else if d == 4 { '4' }
    else if d == 5 { '5' }
    else if d == 6 { '6' }
    else if d == 7 { '7' }
    else if d == 8 { '8' }
    else { '9' }
}

/// Where the upload numbered `id` is staged for the store directory `dir`:
/// in a directory beside the store, not in it.
pub open spec fn staging_spec(dir: Seq<char>, id: nat) -> Seq<char> {
    dir + ".partial/upload-"@ + decimal(id)
}

/// The directory beside the store directory `dir` that holds the staging
/// files.
pub open spec fn staging_dir_spec(dir: Seq<char>) -> Seq<char> {
    dir + ".partial"@
}

/// The path of the entry `name` under the directory `dir`.
pub open spec fn entry_spec(dir: Seq<char>, name: Seq<char>) -> Seq<char> {
    dir + seq!['/'] + name
}

fn digit_str(d: u64) -> (r: &'static str)
    requires
        d < 10,
    ensures
        r@ == seq![digit_char(d as nat)],
{
    proof {
        reveal_strlit("0");
        reveal_strlit("1");
        reveal_strlit("2");
        reveal_strlit("3");
        reveal_strlit("4");
        reveal_strlit("5");
        reveal_strlit("6");
        reveal_strlit("7");
        reveal_strlit("8");
        reveal_strlit("9");
    }
    if d == 0 { "0" }
    else if d == 1 { "1" }
    else if d == 2 { "2" }
    else if d == 3 { "3" }
    else if d == 4 { "4" }
    else if d == 5 { "5" }
    else if d == 6 { "6" }
    else if d == 7 { "7" }
    else if d == 8 { "8" }
    else { "9" }
}

fn append_decimal(out: &mut String, n: u64)
    ensures
        final(out)@ == old(out)@ + decimal(n as nat),
    decreases n,
{
    if n >= 10 {
        append_decimal(out, n / 10);
    }
    out.append(digit_str(n % 10));
    assert(final(out)@ =~= old(out)@ + decimal(n as nat));
}

/// The directory that holds the staging files of the store directory `dir`.
pub fn staging_dir(dir: &str) -> (r: String)
    ensures
        r@ == staging_dir_spec(dir@),
{
    proof {
        reveal_strlit(".partial");
    }
    let mut r = String::from_str(dir);
    r.append(".partial");
    r
}

/// The staging path of the upload numbered `id`, for the store directory
/// `dir`.
pub fn staging_path(dir: &str, id: u64) -> (r: String)
    ensures
        r@ == staging_spec(dir@, id as nat),
{
    proof {
        reveal_strlit(".partial/upload-");
    }
    let mut r = String::from_str(dir);
    r.append(".partial/upload-");
    append_decimal(&mut r, id);
    assert(r@ =~= staging_spec(dir@, id as nat));
    r
}

/// The path of the entry `name` under the directory `dir`.
pub fn entry_path(dir: &str, name: &str) -> (r: String)
    ensures
        r@ == entry_spec(dir@, name@),
{
    proof {
        reveal_strlit("/");
    }
    let mut r = String::from_str(dir);
    r.append("/");
    r.append(name);
    r
}

/// A staging file is never an entry of the store: it is neither listed nor
/// served, whatever it holds.
pub proof fn lemma_staging_outside_store(dir: Seq<char>, id: nat, name: Seq<char>)
    ensures
        staging_spec(dir, id) != entry_spec(dir, name),
{
    reveal_strlit(".partial/upload-");
    assert(staging_spec(dir, id)[dir.len() as int] == '.');
    assert(entry_spec(dir, name)[dir.len() as int] == '/');
}

/// Uploading `n` bytes within the bound and downloading by the same name
/// gives back exactly those bytes.
pub proof fn lemma_round_trip(store: StoreView, name: Seq<char>, max: nat, chunks: Seq<Seq<u8>>)
    requires
        safe_name(name),
        flatten(chunks).len() <= max,
    ensures
        download_spec(upload_spec(store, name, max, chunks), name) == Ok::<Seq<u8>, DownloadError>(flatten(chunks)),
{
    lemma_received_iff_within(max, chunks);
}

/// A part over the bound, by even one byte, is refused and leaves the store
/// as it was: nothing new is served under its name.
pub proof fn lemma_oversize_leaves_store(store: StoreView, name: Seq<char>, max: nat, chunks: Seq<Seq<u8>>)
    requires
        flatten(chunks).len() > max,
    ensures
        received(max, chunks) is None,
        upload_spec(store, name, max, chunks) == store,
        download_spec(upload_spec(store, name, max, chunks), name) == download_spec(store, name),
{
    lemma_received_iff_within(max, chunks);
}

/// Uploading twice to one name serves the second content only.
pub proof fn lemma_second_upload_wins(
    store: StoreView,
    name: Seq<char>,
    max: nat,
    first: Seq<Seq<u8>>,
    second: Seq<Seq<u8>>,
)
    requires
        safe_name(name),
        flatten(first).len() <= max,
        flatten(second).len() <= max,
    ensures
        download_spec(upload_spec(upload_spec(store, name, max, first), name, max, second), name)
            == Ok::<Seq<u8>, DownloadError>(flatten(second)),
{
    lemma_received_iff_within(max, first);
    lemma_received_iff_within(max, second);
}

/// Two uploads to one name, finishing in either order, leave the whole
/// content of one of them, never a mix.
pub proof fn lemma_concurrent_uploads_never_mix(
    store: StoreView,
    name: Seq<char>,
    max: nat,
    a: Seq<Seq<u8>>,
    b: Seq<Seq<u8>>,
)
    requires
        safe_name(name),
        flatten(a).len() <= max,
        flatten(b).len() <= max,
    ensures
        ({
            let ab = download_spec(upload_spec(upload_spec(store, name, max, a), name, max, b), name);
            let ba = download_spec(upload_spec(upload_spec(store, name, max, b), name, max, a), name);
            &&& ab == Ok::<Seq<u8>, DownloadError>(flatten(a)) || ab == Ok::<Seq<u8>, DownloadError>(flatten(b))
            &&& ba == Ok::<Seq<u8>, DownloadError>(flatten(a)) || ba == Ok::<Seq<u8>, DownloadError>(flatten(b))
        }),
{
    lemma_second_upload_wins(store, name, max, a, b);
    lemma_second_upload_wins(store, name, max, b, a);
}

/// A name that could leave the store directory is never served.
pub proof fn lemma_escaping_download_not_found(store: StoreView, name: Seq<char>)
    requires
        crate::names::escapes_store(name),
    ensures
        download_spec(store, name) == Err::<Seq<u8>, DownloadError>(DownloadError::NotFound),
{
    crate::names::lemma_escaping_name_is_unsafe(name);
}

} // verus!
