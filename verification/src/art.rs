//! The cover-art download protocol: two sources tried in order (the
//! picture embedded in the track, then the folder cover image), each with
//! the same offset-continuation logic, factored once. The machine decides
//! which command to issue next and assembles the chunks; issuing commands
//! and writing the file happen outside the library.

use vstd::prelude::*;

use crate::parser::{all_digits, dec_value, digit_val, spec_is_digit, valid_dec_u64};
use crate::response::{spec_first_field, MpdResponse};

verus! {

/// The digit character for one decimal digit.
pub open spec fn spec_digit_char(d: int) -> char {
    "0123456789"@[d]
}

/// The decimal numeral of a non-negative number, most significant digit
/// first.
pub open spec fn spec_u64_dec(n: int) -> Seq<char>
    decreases n,
{
    if n < 0 {
        Seq::empty()
    } else if n < 10 {
        seq![spec_digit_char(n)]
    } else {
        spec_u64_dec(n / 10) + seq![spec_digit_char(n % 10)]
    }
}

/// Render a number as its decimal numeral.
pub fn u64_to_string(n: u64) -> (r: String)
    ensures
        r@ == spec_u64_dec(n as int),
    decreases n,
{
    proof {
        reveal_strlit("0123456789");
    }
    let digits = "0123456789";
    if n < 10 {
        let d = n as usize;
        let r = digits.substring_char(d, d + 1).to_owned();
        assert(r@ =~= seq![spec_digit_char(n as int)]);
        r
    } else {
        let prefix = u64_to_string(n / 10);
        let d = (n % 10) as usize;
        let last = digits.substring_char(d, d + 1);
        assert(last@ =~= seq![spec_digit_char(n as int % 10)]);
        prefix.concat(last)
    }
}

/// A rendered numeral is all digits and reads back to the same number.
pub proof fn lemma_u64_dec_value(n: int)
    requires
        n >= 0,
    ensures
        all_digits(spec_u64_dec(n)),
        spec_u64_dec(n).len() > 0,
        dec_value(spec_u64_dec(n)) == n,
    decreases n,
{
    reveal_strlit("0123456789");
    assert forall|d: int| 0 <= d < 10 implies spec_is_digit(spec_digit_char(d)) && digit_val(
        spec_digit_char(d),
    ) == d by {
        assert("0123456789"@.len() == 10);
    }
    if n < 10 {
        let s = spec_u64_dec(n);
        assert(s == seq![spec_digit_char(n)]);
        assert(s.len() == 1);
        assert(s.last() == spec_digit_char(n));
        assert(s.drop_last() =~= Seq::<char>::empty());
        assert(dec_value(s.drop_last()) == 0);
        assert(dec_value(s) == dec_value(s.drop_last()) * 10 + digit_val(s.last()));
        assert(dec_value(s) == digit_val(spec_digit_char(n)));
    } else {
        lemma_u64_dec_value(n / 10);
        let p = spec_u64_dec(n / 10);
        let s = spec_u64_dec(n);
        assert(s == p + seq![spec_digit_char(n % 10)]);
        assert(s.drop_last() =~= p);
        assert(s.last() == spec_digit_char(n % 10));
        assert(dec_value(s) == dec_value(p) * 10 + digit_val(spec_digit_char(n % 10)));
        assert forall|k: int| 0 <= k < s.len() implies spec_is_digit(s[k]) by {
            if k < p.len() {
                assert(s[k] == p[k]);
            }
        }
    }
}

/// Where cover art is looked for.
#[derive(Debug, Clone, Copy, PartialEq, Eq, Structural)]
pub enum ArtSource {
    /// The picture embedded in the track (`readpicture`).
    Embedded,
    /// The cover image stored beside the track (`albumart`).
    Folder,
}

/// The command that fetches one chunk: the source's command word, the
/// quoted track URI, and the byte offset.
pub open spec fn spec_art_command(src: ArtSource, uri: Seq<char>, offset: u64) -> Seq<char> {
    (match src {
        ArtSource::Embedded => "readpicture \""@,
        ArtSource::Folder => "albumart \""@,
    }) + uri + "\" "@ + spec_u64_dec(offset as int)
}

/// What the download does next.
#[derive(Debug, Clone, Copy, PartialEq, Eq, Structural)]
pub enum ArtStep {
    /// Issue [`ArtDownload::command`] again and feed the response.
    Continue,
    /// The declared total has arrived; the assembled bytes are complete.
    Done,
    /// Neither source has art for this track (not an error).
    NoArt,
}

/// Why a chunk response could not be used.
#[derive(Debug, Clone, Copy, PartialEq, Eq, Structural)]
pub enum ArtError {
    /// A chunk arrived without a `size` field declaring the total.
    MissingSize,
    /// The declared total is not a numeral that fits.
    BadSize,
    /// A source that was already delivering chunks stopped sending them.
    MissingChunk,
    /// An empty chunk short of the declared total: the download cannot
    /// advance.
    NoProgress,
    /// The offsets overflow: the backend claims more bytes than can exist.
    Oversize,
}

/// One in-progress cover-art download.
#[derive(Debug)]
pub struct ArtDownload {
    /// The track URI the art belongs to.
    pub uri: String,
    /// The source currently being tried.
    pub source: ArtSource,
    /// How many bytes have been received so far (the next request's offset).
    pub offset: u64,
    /// The bytes received so far, in offset order.
    pub data: Vec<u8>,
}

impl ArtDownload {
    /// Start a download for the given track: the embedded picture is tried
    /// first, from offset zero.
    pub fn start(uri: String) -> (r: ArtDownload)
        ensures
            r.uri == uri,
            r.source == ArtSource::Embedded,
            r.offset == 0,
            r.data@.len() == 0,
    {
        ArtDownload { uri, source: ArtSource::Embedded, offset: 0, data: Vec::new() }
    }

    /// The command that fetches the next chunk.
    pub fn command(&self) -> (r: String)
        ensures
            r@ == spec_art_command(self.source, self.uri@, self.offset),
    {
        let word = match self.source {
            ArtSource::Embedded => "readpicture \"",
            ArtSource::Folder => "albumart \"",
        };
        let mut cmd = word.to_owned();
        cmd.append(self.uri.as_str());
        cmd.append("\" ");
        let off = u64_to_string(self.offset);
        cmd.append(off.as_str());
        cmd
    }

    /// Consume one chunk response. A response without binary data at offset
    /// zero falls through to the next source, or means the track has no
    /// art; one with data appends the chunk and either finishes (the
    /// declared total is reached) or continues at the next offset.
    pub fn feed(&mut self, resp: &MpdResponse) -> (r: Result<ArtStep, ArtError>)
        ensures
            ({
                let f = resp.fields_v();
                match resp.binary {
                    None => {
                        if old(self).offset == 0 && old(self).source == ArtSource::Embedded {
                            &&& r == Ok::<ArtStep, ArtError>(ArtStep::Continue)
                            &&& final(self).source == ArtSource::Folder
                            &&& final(self).offset == 0
                            &&& final(self).data == old(self).data
                            &&& final(self).uri == old(self).uri
                        } else if old(self).offset == 0 {
                            &&& r == Ok::<ArtStep, ArtError>(ArtStep::NoArt)
                            &&& *final(self) == *old(self)
                        } else {
                            &&& r == Err::<ArtStep, ArtError>(ArtError::MissingChunk)
                            &&& *final(self) == *old(self)
                        }
                    },
                    Some(chunk) => {
                        match spec_first_field(f, "size"@) {
                            None => r == Err::<ArtStep, ArtError>(ArtError::MissingSize)
                                && *final(self) == *old(self),
                            Some(sv) => {
                                if !valid_dec_u64(sv) {
                                    &&& r == Err::<ArtStep, ArtError>(ArtError::BadSize)
                                    &&& *final(self) == *old(self)
                                } else {
                                    let total = dec_value(sv);
                                    if old(self).offset + chunk@.len() > u64::MAX {
                                        r == Err::<ArtStep, ArtError>(ArtError::Oversize)
                                            && *final(self) == *old(self)
                                    } else if old(self).offset + chunk@.len() >= total {
                                        &&& r == Ok::<ArtStep, ArtError>(ArtStep::Done)
                                        &&& final(self).data@ == old(self).data@ + chunk@
                                        &&& final(self).offset == old(self).offset + chunk@.len()
                                        &&& final(self).source == old(self).source
                                        &&& final(self).uri == old(self).uri
                                    } else if chunk@.len() == 0 {
                                        r == Err::<ArtStep, ArtError>(ArtError::NoProgress)
                                            && *final(self) == *old(self)
                                    } else {
                                        &&& r == Ok::<ArtStep, ArtError>(ArtStep::Continue)
                                        &&& final(self).data@ == old(self).data@ + chunk@
                                        &&& final(self).offset == old(self).offset + chunk@.len()
                                        &&& final(self).source == old(self).source
                                        &&& final(self).uri == old(self).uri
                                    }
                                }
                            },
                        }
                    },
                }
            }),
    {
        match &resp.binary {
            None => {
                if self.offset == 0 {
                    if matches!(self.source, ArtSource::Embedded) {
                        self.source = ArtSource::Folder;
                        Ok(ArtStep::Continue)
                    } else {
                        Ok(ArtStep::NoArt)
                    }
                } else {
                    Err(ArtError::MissingChunk)
                }
            },
            Some(chunk) => {
                let total = match resp.first_field_value("size") {
                    Some(v) => match crate::parser::parse_u64(v.as_str()) {
                        Some(t) => t,
                        None => {
                            return Err(ArtError::BadSize);
                        },
                    },
                    None => {
                        return Err(ArtError::MissingSize);
                    },
                };
                let clen = chunk.len() as u64;
                if self.offset > u64::MAX - clen {
                    return Err(ArtError::Oversize);
                }
                let new_offset = self.offset + clen;
                if new_offset >= total {
                    self.data.extend_from_slice(chunk.as_slice());
                    self.offset = new_offset;
                    Ok(ArtStep::Done)
                } else if clen == 0 {
                    Err(ArtError::NoProgress)
                } else {
                    self.data.extend_from_slice(chunk.as_slice());
                    self.offset = new_offset;
                    Ok(ArtStep::Continue)
                }
            },
        }
    }

    /// Hand out the assembled bytes.
    pub fn into_data(self) -> (r: Vec<u8>)
        ensures
            r == self.data,
    {
        self.data
    }
}

/// Why the track information needed for an art download is unusable.
#[derive(Debug, Clone, Copy, PartialEq, Eq, Structural)]
pub enum ArtInfoError {
    /// The current-song response names no file.
    MissingUri,
    /// The current-song response carries no track id.
    MissingId,
}

/// Extract the track URI and id from a `currentsong` response; both are
/// needed before art can be looked up.
pub fn art_track_info(resp: &MpdResponse) -> (r: Result<(String, String), ArtInfoError>)
    ensures
        ({
            let f = resp.fields_v();
            match r {
                Ok(p) => spec_first_field(f, "file"@) == Some(p.0@) && spec_first_field(
                    f,
                    "Id"@,
                ) == Some(p.1@),
                Err(ArtInfoError::MissingUri) => spec_first_field(f, "file"@) is None,
                Err(ArtInfoError::MissingId) => spec_first_field(f, "file"@) is Some
                    && spec_first_field(f, "Id"@) is None,
            }
        }),
{
    let uri = match resp.first_field_value("file") {
        Some(v) => v.clone(),
        None => {
            return Err(ArtInfoError::MissingUri);
        },
    };
    let id = match resp.first_field_value("Id") {
        Some(v) => v.clone(),
        None => {
            return Err(ArtInfoError::MissingId);
        },
    };
    Ok((uri, id))
}

/// Relies on `dirs::runtime_dir`: the platform's runtime directory, if the
/// environment defines one. The result depends on the environment, so
/// nothing is promised of it.
#[verifier::external_body]
fn runtime_dir_string() -> (r: Option<String>) {
    dirs::runtime_dir().and_then(|p| p.into_os_string().into_string().ok())
}

/// The art cache path for a track: the base directory (or `/tmp` when the
/// platform offers none), the fixed cache subdirectory, and the track id.
pub open spec fn spec_art_cache_path(base: Option<Seq<char>>, id: Seq<char>) -> Seq<char> {
    (match base {
        Some(b) => b,
        None => "/tmp"@,
    }) + "/mpd/album_art/"@ + id
}

/// Build the art cache path for a track id under the given base directory.
pub fn art_cache_path(base: Option<&str>, id: &str) -> (r: String)
    ensures
        r@ == spec_art_cache_path(
            match base {
                Some(b) => Some(b@),
                None => None,
            },
            id@,
        ),
{
    let mut p = match base {
        Some(b) => b.to_owned(),
        None => "/tmp".to_owned(),
    };
    p.append("/mpd/album_art/");
    p.append(id);
    p
}

/// The art cache path for a track id under the platform's runtime
/// directory, falling back to `/tmp`.
pub fn resolve_art_cache_path(id: &str) -> (r: String)
    ensures
        exists|base: Option<Seq<char>>| r@ == spec_art_cache_path(base, id@),
{
    let base = runtime_dir_string();
    let r = match &base {
        Some(b) => art_cache_path(Some(b.as_str()), id),
        None => art_cache_path(None, id),
    };
    proof {
        match base {
            Some(b) => {
                assert(r@ == spec_art_cache_path(Some(b@), id@));
            },
            None => {
                assert(r@ == spec_art_cache_path(None::<Seq<char>>, id@));
            },
        }
    }
    r
}

} // verus!
