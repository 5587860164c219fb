//! The download side of the transfer engine: which names may be served, and
//! the headers that go with the streamed bytes.

use vstd::prelude::*;
use vstd::string::StringExecFns;
use crate::names::{safe_name, is_safe_name};
use crate::store::{StoreView, download_spec};

verus! {

/// The content type registered for a file name's extension.
pub uninterp spec fn guessed_mime(name: Seq<char>) -> Seq<char>;

/// Relies on `mime_guess::from_path(..).first_or_octet_stream()`: the first
/// type registered for the name's extension, or `application/octet-stream`
/// when there is none. It looks at the name alone.
#[verifier::external_body]
fn guess_mime(name: &str) -> (r: String)
    ensures
        r@ == guessed_mime(name@),
{
    mime_guess::from_path(name).first_or_octet_stream().to_string()
}

/// `s` with each double quote escaped by a backslash, as a quoted string
/// of a header value holds it.
pub open spec fn quote_escaped(s: Seq<char>) -> Seq<char>
    decreases s.len(),
{
    if s.len() == 0 {
        Seq::empty()
    } else if s.last() == '"' {
        quote_escaped(s.drop_last()) + seq!['\\', '"']
    } else {
        quote_escaped(s.drop_last()) + seq![s.last()]
    }
}

/// The content disposition that makes a client save the bytes as `name`.
pub open spec fn disposition_spec(name: Seq<char>) -> Seq<char> {
    "attachment; filename=\""@ + quote_escaped(name) + seq!['"']
}

/// Appends `s` to `out` with its double quotes escaped.
fn append_quote_escaped(out: &mut String, s: &str)
    ensures
        final(out)@ == old(out)@ + quote_escaped(s@),
{
    let n = s.unicode_len();
    let mut i: usize = 0;
    while i < n
        invariant
            n == s@.len(),
            i <= n,
            out@ == old(out)@ + quote_escaped(s@.subrange(0, i as int)),
        decreases n - i,
    {
        assert(s@.subrange(0, i as int + 1).drop_last() =~= s@.subrange(0, i as int));
        let c = s.get_char(i);
        assert(s@.subrange(0, i as int + 1).last() == c);
        if c == '"' {
            proof {
                reveal_strlit("\\\"");
            }
            assert("\\\""@ =~= seq!['\\', '"']);
            out.append("\\\"");
        } else {
            let one = s.substring_char(i, i + 1);
            assert(one@ =~= seq![c]);
            out.append(one);
        }
        assert(out@ =~= old(out)@ + quote_escaped(s@.subrange(0, i as int + 1)));
        i = i + 1;
    }
    assert(s@.subrange(0, n as int) =~= s@);
}

#[derive(Debug, Clone, Copy, PartialEq, Eq, Structural)]
pub enum DownloadError {
    /// No such file, or a name that may not stand in the store.
    NotFound,
    /// Reading from the store failed.
    Io,
}

impl DownloadError {
    /// The HTTP status that reports the error.
    pub fn status_code(&self) -> (r: u16)
        ensures
            *self is NotFound ==> r == 404,
            *self is Io ==> r == 500,
    {
        match self {
            DownloadError::NotFound => 404,
            DownloadError::Io => 500,
        }
    }
}

/// How a stored file is served.
pub struct DownloadPlan {
    /// The entry of the store to read.
    pub file_name: String,
    /// The content type header.
    pub content_type: String,
    /// The content disposition header.
    pub disposition: String,
}

/// Decides how the file `name` is served. A name that may not stand in the
/// store is not found, whatever the disk holds, so no path outside the store
/// is ever opened. Otherwise the store decides: the file's bytes if it holds
/// the name, else not found.
pub fn plan_download(name: &str) -> (r: Result<DownloadPlan, DownloadError>)
    ensures
        safe_name(name@) <==> r is Ok,
        !safe_name(name@) ==> r matches Err(DownloadError::NotFound),
        r matches Ok(p) ==> p.file_name@ == name@ && p.content_type@ == guessed_mime(name@)
            && p.disposition@ == disposition_spec(name@),
        forall|st: StoreView| #[trigger] download_spec(st, name@) == if r is Ok && st.contains_key(name@) {
            Ok::<Seq<u8>, DownloadError>(st[name@])
        } else {
            Err::<Seq<u8>, DownloadError>(DownloadError::NotFound)
        },
{
    if !is_safe_name(name) {
        return Err(DownloadError::NotFound);
    }
    proof {
        reveal_strlit("attachment; filename=\"");
        reveal_strlit("\"");
    }
    let mut disposition = String::from_str("attachment; filename=\"");
    append_quote_escaped(&mut disposition, name);
    disposition.append("\"");
    assert(disposition@ =~= disposition_spec(name@));
    Ok(DownloadPlan {
        file_name: String::from_str(name),
        content_type: guess_mime(name),
        disposition,
    })
}

} // verus!
