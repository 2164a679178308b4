//! Content-addressed file store: a file is addressed by its workspace, the
//! SHA-1 digest of its bytes and the extension of its name.
use sha1::Digest;
use std::path::Path;
use std::path::PathBuf;
use vstd::prelude::*;
use vstd::string::*;

use crate::error::AppError;
use crate::text::{
    dec, decimal_string, digit_char, last_index, last_index_of, lemma_last_index_of_bounds, parse_u64,
    lemma_dec_digits, lemma_last_index_of, lemma_split_on_cons, lemma_split_on_single, is_digit, unsigned_digits, parse_u64_spec, split_char,
    split_on, starts_with,
};

verus! {

#[verifier::external_type_specification]
#[verifier::external_body]
pub struct ExPath(Path);

#[verifier::external_type_specification]
#[verifier::external_body]
pub struct ExPathBuf(PathBuf);

/// The SHA-1 digest of a byte string.
pub uninterp spec fn sha1_of(data: Seq<u8>) -> Seq<u8>;

/// Relies on `sha1::Sha1::digest`: the SHA-1 digest of `data`, which is
/// twenty bytes long.
#[verifier::external_body]
fn sha1_digest(data: &[u8]) -> (r: Vec<u8>)
    ensures
        r@ == sha1_of(data@),
        r@.len() == 20,
{
    sha1::Sha1::digest(data).to_vec()
}

/// The lowercase hexadecimal digit for `d` (below sixteen).
pub open spec fn hex_digit(d: nat) -> char {
    if d < 10 {
        digit_char(d)
    } else if d == 10 {
        'a'
    } else if d == 11 {
        'b'
    } else if d == 12 {
        'c'
    } else if d == 13 {
        'd'
    } else if d == 14 {
        'e'
    } else {
        'f'
    }
}

/// Two lowercase hexadecimal digits for each byte, the high half first.
pub open spec fn hex_lower(b: Seq<u8>) -> Seq<char> {
    Seq::new(
        2 * b.len(),
        |i: int|
            if i % 2 == 0 {
                hex_digit((b[i / 2] / 16) as nat)
            } else {
                hex_digit((b[i / 2] % 16) as nat)
            },
    )
}

pub open spec fn is_hex_lower(s: Seq<char>) -> bool {
    forall|i: int|
        0 <= i < s.len() ==> ('0' <= #[trigger] s[i] && s[i] <= '9') || ('a' <= s[i] && s[i]
            <= 'f')
}

/// Relies on `hex::encode`: two lowercase hexadecimal digits for each byte,
/// the high half first.
#[verifier::external_body]
fn hex_encode(data: &[u8]) -> (r: String)
    ensures
        r@ == hex_lower(data@),
{
    hex::encode(data)
}

/// The extension of a file name: what follows its last `.`, or the whole
/// name where it has none.
pub open spec fn ext_of(name: Seq<char>) -> Seq<char> {
    name.subrange(last_index_of(name, '.') + 1, name.len() as int)
}

/// `{ws}/{hash[0:3]}/{hash[3:6]}/{hash[6:]}.{ext}`
pub open spec fn rel_path(ws: u64, hash: Seq<char>, ext: Seq<char>) -> Seq<char> {
    dec(ws as nat) + seq!['/'] + hash.subrange(0, 3) + seq!['/'] + hash.subrange(3, 6) + seq!['/']
        + hash.subrange(6, hash.len() as int) + seq!['.'] + ext
}

pub open spec fn files_prefix() -> Seq<char> {
    seq!['/', 'f', 'i', 'l', 'e', 's', '/']
}

/// The public URL of a file: `/files/` and its relative path.
pub open spec fn file_url(ws: u64, hash: Seq<char>, ext: Seq<char>) -> Seq<char> {
    files_prefix() + rel_path(ws, hash, ext)
}

/// What reading a public URL gives: the workspace, hash and extension, or
/// the message of the error.
pub open spec fn parse_url_spec(s: Seq<char>) -> Result<(u64, Seq<char>, Seq<char>), Seq<char>> {
    if !(s.len() >= 7 && s.subrange(0, 7) == files_prefix()) {
        Err("Invalid chat file path: "@ + s)
    } else {
        let rest = s.subrange(7, s.len() as int);
        let parts = split_on(rest, '/');
        if parts.len() != 4 {
            Err("File path "@ + rest + " does not valid"@)
        } else {
            match parse_u64_spec(parts[0]) {
                None => Err("Invalid workspace id: "@ + parts[0]),
                Some(ws) => {
                    let name = parts[3];
                    let k = last_index_of(name, '.');
                    if k < 0 {
                        Err("Invalid file name: "@ + name)
                    } else {
                        Ok(
                            (
                                ws,
                                parts[1] + parts[2] + name.subrange(0, k),
                                name.subrange(k + 1, name.len() as int),
                            ),
                        )
                    }
                },
            }
        }
    }
}

/// The address of `data` uploaded as `name` to workspace `ws`: the
/// workspace, the lowercase hexadecimal SHA-1 digest of the bytes, and the
/// extension of the name.
pub open spec fn address_of(ws: u64, name: Seq<char>, data: Seq<u8>) -> (u64, Seq<char>, Seq<char>) {
    (ws, hex_lower(sha1_of(data)), ext_of(name))
}

/// A stored file: its workspace, the extension of its name, and the
/// lowercase hexadecimal SHA-1 digest of its bytes.
#[derive(Debug, Clone)]
pub struct ChatFile {
    pub ws_id: u64,
    pub ext: String,
    pub hash: String,
}

impl ChatFile {
    /// The address of the file as a triple of plain values.
    pub open spec fn address(&self) -> (u64, Seq<char>, Seq<char>) {
        (self.ws_id, self.hash@, self.ext@)
    }

    /// The address of `data`, uploaded as `filename` to workspace `ws_id`.
    pub fn new(ws_id: u64, filename: &str, data: &[u8]) -> (r: Self)
        ensures
            r.address() == address_of(ws_id, filename@, data@),
            r.hash@.len() == 40,
            is_hex_lower(r.hash@),
    {
        let digest = sha1_digest(data);
        let hash = hex_encode(digest.as_slice());
        let n = filename.unicode_len();
        proof {
            lemma_last_index_of_bounds(filename@, '.');
        }
        let ext = match last_index(filename, '.') {
            Some(k) => String::from_str(filename.substring_char(k + 1, n)),
            None => String::from_str(filename),
        };
        proof {
            lemma_hex_lower_digits(digest@);
            if last_index_of(filename@, '.') == -1 {
                assert(filename@.subrange(0, filename@.len() as int) =~= filename@);
            }
        }
        ChatFile { ws_id, ext, hash }
    }

    /// The file's path relative to the store's root:
    /// `{ws_id}/{hash[0:3]}/{hash[3:6]}/{hash[6:]}.{ext}`.
    pub fn hash_to_path(&self) -> (r: String)
        requires
            self.hash@.len() >= 6,
        ensures
            r@ == rel_path(self.ws_id, self.hash@, self.ext@),
    {
        let h = self.hash.as_str();
        let n = h.unicode_len();
        let mut r = decimal_string(self.ws_id as u128);
        r.append("/");
        r.append(h.substring_char(0, 3));
        r.append("/");
        r.append(h.substring_char(3, 6));
        r.append("/");
        r.append(h.substring_char(6, n));
        r.append(".");
        r.append(self.ext.as_str());
        proof {
            reveal_strlit("/");
            reveal_strlit(".");
            assert(r@ =~= rel_path(self.ws_id, self.hash@, self.ext@));
        }
        r
    }

    /// The public URL of the file.
    pub fn url(&self) -> (r: String)
        requires
            self.hash@.len() >= 6,
        ensures
            r@ == file_url(self.ws_id, self.hash@, self.ext@),
    {
        let rel = self.hash_to_path();
        let r = String::from_str("/files/").concat(rel.as_str());
        proof {
            reveal_strlit("/files/");
            assert(r@ =~= file_url(self.ws_id, self.hash@, self.ext@));
        }
        r
    }

    /// Where the file is stored under `base_dir`: `base_dir` joined with
    /// the file's relative path, the same path that follows `/files/` in
    /// its URL.
    pub fn path(&self, base_dir: &Path) -> (r: PathBuf)
        requires
            self.hash@.len() >= 6,
        ensures
            r == joined(base_dir, rel_path(self.ws_id, self.hash@, self.ext@)),
    {
        let rel = self.hash_to_path();
        join_path(base_dir, &rel)
    }

    /// Reads a public URL back into a file address.
    pub fn parse(s: &str) -> (r: Result<ChatFile, AppError>)
        ensures
            match parse_url_spec(s@) {
                Ok(a) => r matches Ok(f) && f.address() == a,
                Err(m) => r matches Err(AppError::ChatFileError(e)) && e@ == m,
            },
    {
        let n = s.unicode_len();
        proof {
            reveal_strlit("/files/");
            assert(files_prefix() =~= "/files/"@);
        }
        if !starts_with(s, "/files/") {
            return Err(AppError::ChatFileError(String::from_str("Invalid chat file path: ").concat(s)));
        }
        let rest = s.substring_char(7, n);
        let parts = split_char(rest, '/');
        let ghost pieces = split_on(rest@, '/');
        assert(parts@.map_values(|p: String| p@).len() == parts@.len());
        if parts.len() != 4 {
            return Err(
                AppError::ChatFileError(
                    String::from_str("File path ").concat(rest).concat(" does not valid"),
                ),
            );
        }
        assert(parts@[0]@ == pieces[0] && parts@[1]@ == pieces[1] && parts@[2]@ == pieces[2]
            && parts@[3]@ == pieces[3]) by {
            assert(parts@.map_values(|p: String| p@)[0] == parts@[0]@);
            assert(parts@.map_values(|p: String| p@)[1] == parts@[1]@);
            assert(parts@.map_values(|p: String| p@)[2] == parts@[2]@);
            assert(parts@.map_values(|p: String| p@)[3] == parts@[3]@);
        }
        let ws_id = match parse_u64(parts[0].as_str()) {
            Some(v) => v,
            None => {
                return Err(
                    AppError::ChatFileError(
                        String::from_str("Invalid workspace id: ").concat(parts[0].as_str()),
                    ),
                );
            },
        };
        let name = parts[3].as_str();
        let m = name.unicode_len();
        let k = match last_index(name, '.') {
            Some(k) => k,
            None => {
                return Err(
                    AppError::ChatFileError(
                        String::from_str("Invalid file name: ").concat(name),
                    ),
                );
            },
        };
        proof {
            lemma_last_index_of_bounds(name@, '.');
        }
        let hash = parts[1].clone().concat(parts[2].as_str()).concat(name.substring_char(0, k));
        let ext = String::from_str(name.substring_char(k + 1, m));
        Ok(ChatFile { ws_id, ext, hash })
    }
}

/// `rel` joined onto `base` as `std::path::Path::join` does it.
pub uninterp spec fn joined(base: &Path, rel: Seq<char>) -> PathBuf;

/// Relies on `std::path::Path::join`: `rel` appended to `base`; the result
/// depends on the two arguments alone.
#[verifier::external_body]
fn join_path(base: &Path, rel: &String) -> (r: PathBuf)
    ensures
        r == joined(base, rel@),
{
    base.join(rel)
}

impl std::str::FromStr for ChatFile {
    type Err = AppError;

    fn from_str(s: &str) -> (r: Result<Self, Self::Err>)
        ensures
            match parse_url_spec(s@) {
                Ok(a) => r matches Ok(f) && f.address() == a,
                Err(m) => r matches Err(AppError::ChatFileError(e)) && e@ == m,
            },
    {
        ChatFile::parse(s)
    }
}

/// Hexadecimal text is lowercase hex digits only, two per byte.
pub proof fn lemma_hex_lower_digits(b: Seq<u8>)
    ensures
        is_hex_lower(hex_lower(b)),
        hex_lower(b).len() == 2 * b.len(),
{
}

/// Reading back the public URL of a file gives the file's address again,
/// for every hash of six or more lowercase hexadecimal digits and every
/// extension that holds neither `/` nor `.`.
pub proof fn lemma_url_round_trip(ws: u64, hash: Seq<char>, ext: Seq<char>)
    requires
        hash.len() >= 6,
        is_hex_lower(hash),
        !ext.contains('/'),
        !ext.contains('.'),
    ensures
        parse_url_spec(file_url(ws, hash, ext)) == Ok::<_, Seq<char>>((ws, hash, ext)),
{
    let s = file_url(ws, hash, ext);
    let rest = rel_path(ws, hash, ext);
    assert(s.subrange(0, 7) =~= files_prefix());
    assert(s.subrange(7, s.len() as int) =~= rest);
    let a = dec(ws as nat);
    let b = hash.subrange(0, 3);
    let c = hash.subrange(3, 6);
    let t = hash.subrange(6, hash.len() as int);
    let d = t + seq!['.'] + ext;
    lemma_dec_digits(ws as nat);
    assert forall|i: int| 0 <= i < a.len() implies a[i] != '/' by {
        assert(is_digit(a[i]));
    }
    assert forall|i: int| 0 <= i < b.len() implies b[i] != '/' by {
        assert(b[i] == hash[i]);
    }
    assert forall|i: int| 0 <= i < c.len() implies c[i] != '/' by {
        assert(c[i] == hash[i + 3]);
    }
    assert forall|i: int| 0 <= i < d.len() implies d[i] != '/' by {
        if i < t.len() {
            assert(d[i] == hash[i + 6]);
        } else if i > t.len() {
            assert(d[i] == ext[i - t.len() - 1]);
        }
    }
    assert(!a.contains('/'));
    assert(!b.contains('/'));
    assert(!c.contains('/'));
    assert(!d.contains('/'));
    lemma_split_on_single(d, '/');
    lemma_split_on_cons(c, '/', d);
    lemma_split_on_cons(b, '/', c + seq!['/'] + d);
    lemma_split_on_cons(a, '/', b + seq!['/'] + (c + seq!['/'] + d));
    assert(rest =~= a + seq!['/'] + (b + seq!['/'] + (c + seq!['/'] + d)));
    let parts = split_on(rest, '/');
    assert(parts =~= seq![a, b, c, d]);
    assert(unsigned_digits(a) == a);
    assert forall|i: int| t.len() < i < d.len() implies d[i] != '.' by {
        assert(d[i] == ext[i - t.len() - 1]);
    }
    lemma_last_index_of(d, '.', t.len() as int);
    assert(d.subrange(0, t.len() as int) =~= t);
    assert(d.subrange(t.len() as int + 1, d.len() as int) =~= ext);
    assert(b + c + t =~= hash);
}

/// Identical bytes get the identical content hash, whatever the name and
/// the workspace they are uploaded under; the hash is the same function of
/// the bytes every time.
pub proof fn lemma_same_bytes_same_hash(
    ws1: u64,
    name1: Seq<char>,
    ws2: u64,
    name2: Seq<char>,
    data: Seq<u8>,
)
    ensures
        address_of(ws1, name1, data).1 == address_of(ws2, name2, data).1,
        address_of(ws1, name1, data).1 == hex_lower(sha1_of(data)),
{
}

/// Reading back the public URL of an upload gives the workspace, hash and
/// extension that addressing the upload gave, for every workspace, byte
/// payload and file name whose extension holds no `/` (a SHA-1 digest
/// being twenty bytes long).
pub proof fn lemma_upload_round_trip(ws: u64, name: Seq<char>, data: Seq<u8>)
    requires
        sha1_of(data).len() == 20,
        !ext_of(name).contains('/'),
    ensures
        ({
            let a = address_of(ws, name, data);
            parse_url_spec(file_url(a.0, a.1, a.2)) == Ok::<_, Seq<char>>(a)
        }),
{
    let ext = ext_of(name);
    lemma_hex_lower_digits(sha1_of(data));
    lemma_last_index_of_bounds(name, '.');
    let k = last_index_of(name, '.');
    assert forall|i: int| 0 <= i < ext.len() implies ext[i] != '.' by {
        assert(ext[i] == name[i + k + 1]);
    }
    assert(!ext.contains('.'));
    lemma_url_round_trip(ws, hex_lower(sha1_of(data)), ext);
}

} // verus!
