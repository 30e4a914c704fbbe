//! The body slice of a symbol (signature plus the first lines of its body)
//! and the stable hash of that text, shared by embedding and synthesis so
//! that both agree byte for byte.
use vstd::prelude::*;
use crate::text::{lines_spec, push_str, split_lines, str_eq, string_of};

verus! {

/// Cap on the body lines included in a slice.
pub const BODY_LINE_CAP: usize = 60;

/// The lowercase hex blake3 digest of `data`: what `blake3::hash(data).to_hex()`
/// returns.
pub uninterp spec fn blake3_hex(data: Seq<u8>) -> Seq<char>;

/// blake3 of `data` in lowercase hex (`blake3::hash(data).to_hex()`): 64
/// hex digits, a function of the bytes alone.
#[verifier::external_body]
pub(crate) fn blake3_hex_of(data: &[u8]) -> (r: String)
    ensures
        r@ == blake3_hex(data@),
        r@.len() == 64,
{
    blake3::hash(data).to_hex().to_string()
}

/// The hex blake3 digest of a text's UTF-8 bytes.
pub open spec fn text_hash(text: Seq<char>) -> Seq<char> {
    blake3_hex(vstd::utf8::encode_utf8(text))
}

/// The content hash of a file's text: hex blake3 of its UTF-8 bytes.
pub fn content_hash(content: &str) -> (h: String)
    ensures
        h@ == text_hash(content@),
        h@.len() == 64,
{
    blake3_hex_of(content.as_bytes())
}

/// A signature plus body slice and its hash.
#[derive(Debug, PartialEq, Eq)]
pub struct BodySlice {
    pub text: String,
    pub hash: String,
}

/// The lines of a cached file, or `None` when it could not be read.
pub open spec fn lines_view(v: Option<Vec<String>>) -> Option<Seq<Seq<char>>> {
    match v {
        Some(ls) => Some(ls@.map_values(|s: String| s@)),
        None => None,
    }
}

/// The first cached entry for `path`, if any.
pub open spec fn cache_lookup(
    entries: Seq<(Seq<char>, Option<Seq<Seq<char>>>)>,
    path: Seq<char>,
) -> Option<Option<Seq<Seq<char>>>>
    decreases entries.len(),
{
    if entries.len() == 0 {
        None
    } else if entries[0].0 == path {
        Some(entries[0].1)
    } else {
        cache_lookup(entries.skip(1), path)
    }
}

proof fn lemma_lookup_push(
    entries: Seq<(Seq<char>, Option<Seq<Seq<char>>>)>,
    e: (Seq<char>, Option<Seq<Seq<char>>>),
    q: Seq<char>,
)
    ensures
        cache_lookup(entries.push(e), q) == (match cache_lookup(entries, q) {
            Some(v) => Some(v),
            None => if e.0 == q {
                Some(e.1)
            } else {
                None
            },
        }),
    decreases entries.len(),
{
    if entries.len() > 0 {
        assert(entries.push(e)[0] == entries[0]);
        assert(entries.push(e).skip(1) =~= entries.skip(1).push(e));
        lemma_lookup_push(entries.skip(1), e, q);
    } else {
        assert(entries.push(e)[0] == e);
        assert(entries.push(e).skip(1) =~= Seq::<(Seq<char>, Option<Seq<Seq<char>>>)>::empty());
        assert(cache_lookup(entries.push(e).skip(1), q) is None);
    }
}

/// File contents read so far, as lines; a file that could not be read is
/// remembered as such, and an entry, once made, never changes.
pub struct FileCache {
    entries: Vec<(String, Option<Vec<String>>)>,
}

impl View for FileCache {
    type V = Seq<(Seq<char>, Option<Seq<Seq<char>>>)>;

    closed spec fn view(&self) -> Self::V {
        self.entries@.map_values(|e: (String, Option<Vec<String>>)| (e.0@, lines_view(e.1)))
    }
}

impl FileCache {
    /// An empty cache.
    pub fn new() -> (c: FileCache)
        ensures
            c@.len() == 0,
            forall|p: Seq<char>| cache_lookup(c@, p) is None,
    {
        let c = FileCache { entries: Vec::new() };
        assert(c@ =~= Seq::<(Seq<char>, Option<Seq<Seq<char>>>)>::empty());
        c
    }

    /// The cached lines of `path`: `None` when not cached, `Some(None)` when
    /// cached as unreadable.
    pub fn lookup(&self, path: &str) -> (r: Option<&Option<Vec<String>>>)
        ensures
            r is Some <==> cache_lookup(self@, path@) is Some,
            r matches Some(v) ==> cache_lookup(self@, path@) == Some(lines_view(*v)),
    {
        let mut i: usize = 0;
        assert(self@.skip(0) =~= self@);
        while i < self.entries.len()
            invariant
                i <= self.entries@.len(),
                self@.len() == self.entries@.len(),
                cache_lookup(self@, path@) == cache_lookup(self@.skip(i as int), path@),
            decreases self.entries@.len() - i,
        {
            assert(self@.skip(i as int)[0] == self@[i as int]);
            assert(self@.skip(i as int).skip(1) =~= self@.skip(i + 1));
            if str_eq(self.entries[i].0.as_str(), path) {
                return Some(&self.entries[i].1);
            }
            i = i + 1;
        }
        None
    }

    /// Whether `path` is cached (readable or not).
    pub fn contains(&self, path: &str) -> (r: bool)
        ensures
            r == (cache_lookup(self@, path@) is Some),
    {
        self.lookup(path).is_some()
    }

    /// Records what reading `path` gave (`None` when it could not be read).
    /// A path already cached keeps its first entry.
    pub fn record(&mut self, path: &str, content: Option<&str>)
        ensures
            cache_lookup(old(self)@, path@) is Some ==> final(self)@ == old(self)@,
            cache_lookup(old(self)@, path@) is None ==> cache_lookup(final(self)@, path@) == Some(
                match content {
                    Some(c) => Some(lines_spec(c@)),
                    None => None,
                },
            ),
            forall|q: Seq<char>|
                q != path@ ==> cache_lookup(final(self)@, q) == cache_lookup(old(self)@, q),
    {
        if self.contains(path) {
            return;
        }
        let lines = match content {
            Some(c) => {
                let ls = split_lines(c);
                assert(ls@.map_values(|s: String| s@) =~= lines_spec(c@));
                Some(ls)
            },
            None => None,
        };
        let ghost before = self@;
        let e = (string_of(path), lines);
        self.entries.push(e);
        assert(self@ =~= before.push((e.0@, lines_view(e.1))));
        proof {
            assert forall|q: Seq<char>| #[trigger] cache_lookup(self@, q) == (match cache_lookup(before, q) {
                Some(v) => Some(v),
                None => if path@ == q {
                    Some(lines_view(e.1))
                } else {
                    None
                },
            }) by {
                lemma_lookup_push(before, (e.0@, lines_view(e.1)), q);
            }
        }
    }
}

/// Lines joined with `\n`.
pub open spec fn join_lines(ls: Seq<Seq<char>>) -> Seq<char>
    decreases ls.len(),
{
    if ls.len() == 0 {
        Seq::empty()
    } else if ls.len() == 1 {
        ls[0]
    } else {
        join_lines(ls.drop_last()) + "\n"@ + ls.last()
    }
}

/// The body text of lines `start..=end` (1-indexed) of a file's lines: at
/// most `BODY_LINE_CAP` lines joined by `\n`, with a truncation marker when
/// more were cut; `None` when the range holds no line.
pub open spec fn body_of_lines(lines: Seq<Seq<char>>, start: u32, end: u32) -> Option<Seq<char>> {
    let s = if start >= 1 {
        start - 1
    } else {
        0
    };
    let e = if end < lines.len() {
        end as int
    } else {
        lines.len() as int
    };
    if s >= e {
        None
    } else {
        let slice = lines.subrange(s as int, e);
        if slice.len() > BODY_LINE_CAP {
            Some(join_lines(slice.take(BODY_LINE_CAP as int)) + "\n// ... (body truncated)"@)
        } else {
            Some(join_lines(slice))
        }
    }
}

/// The body text of a cached file's lines `start..=end`; `None` when the
/// file is not cached, could not be read, or the range holds no line.
pub open spec fn cached_body(cache: Seq<(Seq<char>, Option<Seq<Seq<char>>>)>, path: Seq<char>, start: u32, end: u32) -> Option<Seq<char>> {
    match cache_lookup(cache, path) {
        Some(Some(lines)) => body_of_lines(lines, start, end),
        _ => None,
    }
}

fn body_from_lines(lines: &Vec<String>, start: u32, end: u32) -> (r: Option<String>)
    ensures
        r matches Some(b) ==> body_of_lines(lines@.map_values(|s: String| s@), start, end) == Some(b@),
        r is None ==> body_of_lines(lines@.map_values(|s: String| s@), start, end) is None,
{
    let ghost ls = lines@.map_values(|s: String| s@);
    let s: usize = if start >= 1 {
        (start - 1) as usize
    } else {
        0
    };
    let e: usize = if (end as usize) < lines.len() {
        end as usize
    } else {
        lines.len()
    };
    if s >= e {
        return None;
    }
    let n = e - s;
    let cap = if n > BODY_LINE_CAP {
        BODY_LINE_CAP
    } else {
        n
    };
    let ghost slice = ls.subrange(s as int, e as int);
    let mut body = String::new();
    let mut i: usize = 0;
    while i < cap
        invariant
            i <= cap <= n,
            n == e - s,
            s < e <= lines@.len(),
            ls == lines@.map_values(|s: String| s@),
            slice == ls.subrange(s as int, e as int),
            body@ == join_lines(slice.take(i as int)),
        decreases cap - i,
    {
        assert(slice.take(i + 1).drop_last() =~= slice.take(i as int));
        assert(slice.take(i + 1).last() == lines@[s + i]@);
        if i > 0 {
            push_str(&mut body, "\n");
        } else {
            assert(slice.take(1).len() == 1);
        }
        push_str(&mut body, lines[s + i].as_str());
        assert(i == 0 ==> body@ =~= join_lines(slice.take(i + 1)));
        i = i + 1;
    }
    if n > cap {
        push_str(&mut body, "\n// ... (body truncated)");
    } else {
        assert(slice.take(cap as int) =~= slice);
    }
    Some(body)
}

impl FileCache {
    /// The body text of lines `start..=end` (1-indexed, inclusive) of a
    /// cached file: at most `BODY_LINE_CAP` lines, with a truncation marker
    /// when longer. `None` when the file is not cached, was unreadable, or
    /// the range holds no line.
    pub fn body_slice(&self, path: &str, start: u32, end: u32) -> (r: Option<String>)
        ensures
            r matches Some(b) ==> cached_body(self@, path@, start, end) == Some(b@),
            r is None ==> cached_body(self@, path@, start, end) is None,
    {
        match self.lookup(path) {
            Some(Some(lines)) => body_from_lines(lines, start, end),
            _ => None,
        }
    }
}

/// The signature followed, when a body is known, by a blank line and the body.
pub open spec fn signature_plus_body_spec(signature: Seq<char>, body: Option<Seq<char>>) -> Seq<char> {
    match body {
        Some(b) => signature + "\n\n"@ + b,
        None => signature,
    }
}

/// The embedding input of a symbol (its signature plus body slice) and the
/// blake3 hash of that text. Same inputs give the same text and hash.
pub fn signature_plus_body_slice(
    cache: &FileCache,
    signature: &str,
    file_path: &str,
    start_line: u32,
    end_line: u32,
) -> (s: BodySlice)
    ensures
        s.text@ == signature_plus_body_spec(signature@, cached_body(cache@, file_path@, start_line, end_line)),
        s.hash@ == text_hash(s.text@),
        s.hash@.len() == 64,
{
    let body = cache.body_slice(file_path, start_line, end_line);
    let mut text = string_of(signature);
    match body {
        Some(b) => {
            push_str(&mut text, "\n\n");
            push_str(&mut text, b.as_str());
        },
        None => {},
    }
    let hash = blake3_hex_of(text.as_str().as_bytes());
    BodySlice { text, hash }
}

/// The body text of lines `start..=end` of a file, from its cached text
/// (see [`FileCache::body_slice`]). Reading the file is I/O and is left to
/// the caller, which records what it read with [`FileCache::record`];
/// `None` when the file is not cached, was unreadable, or the range holds
/// no line.
pub fn read_body_slice(cache: &FileCache, path: &str, start: u32, end: u32) -> (r: Option<String>)
    ensures
        r matches Some(b) ==> cached_body(cache@, path@, start, end) == Some(b@),
        r is None ==> cached_body(cache@, path@, start, end) is None,
{
    cache.body_slice(path, start, end)
}

} // verus!
