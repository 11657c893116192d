//! The file manager: which file a request is about, and what the requester is told.
use vstd::prelude::*;

use crate::outside::{base64_bytes, base64_decode, base64_encode, base64_size, base64_text};
use crate::payload::{entries_view, FileEntry, FileEntryView, FsResultPayload, FsResultView};
use crate::relay::upload::{chunk, chunk_count, chunks_make_the_file, joined, CHUNK_SIZE};
use crate::text::{
    decimal, decimal_u64, join2, join3, lemma_without_leading_at, opt_str, opt_text, split,
    split_on, str_eq, texts_view, to_chars, without_leading,
};

verus! {

// ---- paths ----
/// The characters that separate the parts of a path on some system.
pub open spec fn is_sep() -> spec_fn(char) -> bool {
    |c: char| c == '/' || c == '\\'
}

/// A path without the separators that it starts with.
pub fn strip_leading_seps(s: &str) -> (r: &str)
    ensures
        r@ == without_leading(s@, is_sep()),
{
    let v = to_chars(s);
    let mut i: usize = 0;
    while i < v.len() && (v[i] == '/' || v[i] == '\\')
        invariant
            i <= v@.len(),
            v@ == s@,
            forall|j: int| 0 <= j < i ==> is_sep()(#[trigger] s@[j]),
        decreases v@.len() - i,
    {
        i = i + 1;
    }
    proof {
        lemma_without_leading_at(s@, is_sep(), i as int);
    }
    let r = s.substring_char(i, v.len());
    assert(r@ =~= s@.skip(i as int));
    r
}

/// Which path a request means.
pub enum Candidate {
    /// The path as it was given.
    Absolute(String),
    /// A path under the root of the file manager.
    UnderRoot(String),
}

pub enum CandidateView {
    Absolute(Seq<char>),
    UnderRoot(Seq<char>),
}

impl View for Candidate {
    type V = CandidateView;

    open spec fn view(&self) -> CandidateView {
        match self {
            Candidate::Absolute(s) => CandidateView::Absolute(s@),
            Candidate::UnderRoot(s) => CandidateView::UnderRoot(s@),
        }
    }
}

pub open spec fn candidate_path(user_path: Seq<char>, is_absolute: bool) -> CandidateView {
    if is_absolute {
        CandidateView::Absolute(user_path)
    } else {
        CandidateView::UnderRoot(without_leading(user_path, is_sep()))
    }
}

/// Which path a request means: the given one where it is absolute, or else one under the root.
pub fn candidate(user_path: &str, is_absolute: bool) -> (r: Candidate)
    ensures
        r@ == candidate_path(user_path@, is_absolute),
{
    if is_absolute {
        Candidate::Absolute(user_path.to_owned())
    } else {
        Candidate::UnderRoot(strip_leading_seps(user_path).to_owned())
    }
}

/// What the file system says of a path.
pub enum Lookup {
    /// It exists; this is its canonical form.
    Found(String),
    /// It does not exist; whether its parent does.
    Missing { path: String, parent_found: bool },
}

pub enum LookupView {
    Found(Seq<char>),
    Missing { path: Seq<char>, parent_found: bool },
}

impl View for Lookup {
    type V = LookupView;

    open spec fn view(&self) -> LookupView {
        match self {
            Lookup::Found(s) => LookupView::Found(s@),
            Lookup::Missing { path, parent_found } => LookupView::Missing {
                path: path@,
                parent_found: *parent_found,
            },
        }
    }
}

/// The path that a request is about. One that does not exist may be created where its parent
/// exists; without a root there is none.
pub open spec fn resolved(root_found: bool, lookup: LookupView) -> Option<Seq<char>> {
    if !root_found {
        None
    } else {
        match lookup {
            LookupView::Found(path) => Some(path),
            LookupView::Missing { path, parent_found } => if parent_found {
                Some(path)
            } else {
                None
            },
        }
    }
}

/// Decides which path a request is about, given what the file system says.
pub fn resolve_path(root_found: bool, lookup: &Lookup) -> (r: Option<String>)
    ensures
        opt_text(r) == resolved(root_found, lookup@),
{
    if !root_found {
        return None;
    }
    match lookup {
        Lookup::Found(path) => Some(path.clone()),
        Lookup::Missing { path, parent_found } => if *parent_found {
            Some(path.clone())
        } else {
            None
        },
    }
}

/// The parts of a path: what stands between its slashes, but for nothing and for `.` after the
/// beginning.
pub open spec fn components(pieces: Seq<Seq<char>>) -> Seq<Seq<char>>
    decreases pieces.len(),
{
    if pieces.len() == 0 {
        Seq::empty()
    } else {
        let before = components(pieces.drop_last());
        let last = pieces.last();
        if last.len() == 0 || (last == "."@ && pieces.len() > 1) {
            before
        } else {
            before.push(last)
        }
    }
}

pub open spec fn is_rooted(path: Seq<char>) -> bool {
    path.len() > 0 && path[0] == '/'
}

pub open spec fn parts(path: Seq<char>) -> Seq<Seq<char>> {
    components(split_on(path, '/'))
}

/// Whether two texts name the same path.
pub open spec fn same_path(a: Seq<char>, b: Seq<char>) -> bool {
    is_rooted(a) == is_rooted(b) && parts(a) == parts(b)
}

/// Whether a path is at or below another.
pub open spec fn path_under(path: Seq<char>, dir: Seq<char>) -> bool {
    is_rooted(path) == is_rooted(dir) && parts(dir).is_prefix_of(parts(path))
}

fn parts_of(path: &str) -> (r: Vec<String>)
    ensures
        texts_view(r@) == parts(path@),
{
    let pieces = split(path, '/');
    let ghost all = texts_view(pieces@);
    let mut r: Vec<String> = Vec::new();
    let mut i: usize = 0;
    assert(all.take(0) =~= Seq::<Seq<char>>::empty());
    assert(texts_view(r@) =~= Seq::<Seq<char>>::empty());
    while i < pieces.len()
        invariant
            i <= pieces@.len(),
            all == texts_view(pieces@),
            texts_view(r@) == components(all.take(i as int)),
        decreases pieces@.len() - i,
    {
        assert(all.take(i + 1).drop_last() =~= all.take(i as int));
        assert(all.take(i + 1).last() == pieces@[i as int]@);
        let piece = pieces[i].as_str();
        if !(piece.is_empty() || (i > 0 && str_eq(piece, "."))) {
            let ghost before = texts_view(r@);
            r.push(piece.to_owned());
            assert(texts_view(r@) =~= before.push(piece@));
        }
        i = i + 1;
    }
    assert(all.take(all.len() as int) =~= all);
    r
}

fn starts_with_slash(path: &str) -> (r: bool)
    ensures
        r == is_rooted(path@),
{
    path.unicode_len() > 0 && path.get_char(0) == '/'
}

/// Whether two texts name the same path.
pub fn is_same_path(a: &str, b: &str) -> (r: bool)
    ensures
        r == same_path(a@, b@),
{
    is_path_under(a, b) && is_path_under(b, a)
}

/// Whether a path is at or below another.
pub fn is_path_under(path: &str, dir: &str) -> (r: bool)
    ensures
        r == path_under(path@, dir@),
        path_under(path@, dir@) && path_under(dir@, path@) <==> same_path(path@, dir@),
{
    proof {
        if path_under(path@, dir@) && path_under(dir@, path@) {
            assert(parts(path@) =~= parts(dir@));
        }
    }
    if starts_with_slash(path) != starts_with_slash(dir) {
        return false;
    }
    let p = parts_of(path);
    let d = parts_of(dir);
    let ghost a = texts_view(p@);
    let ghost b = texts_view(d@);
    if p.len() < d.len() {
        return false;
    }
    let mut i: usize = 0;
    while i < d.len()
        invariant
            i <= d@.len(),
            d@.len() <= p@.len(),
            a == texts_view(p@),
            b == texts_view(d@),
            a == parts(path@),
            b == parts(dir@),
            forall|j: int| 0 <= j < i ==> #[trigger] a[j] == b[j],
            path_under(path@, dir@) && path_under(dir@, path@) <==> same_path(path@, dir@),
        decreases d@.len() - i,
    {
        if !str_eq(p[i].as_str(), d[i].as_str()) {
            assert(a[i as int] != b[i as int]);
            return false;
        }
        i = i + 1;
    }
    assert(b =~= a.subrange(0, b.len() as int));
    true
}

// ---- base64 ----
/// Whether so many bytes can be held in base64 on this machine.
pub fn encodable(n: usize) -> (r: bool)
    ensures
        r == (base64_size(n as nat) <= isize::MAX),
{
    n <= isize::MAX as usize / 4 * 3
}

/// The base64 of some bytes. Decoding it gives them back.
pub fn encode_b64(data: &[u8]) -> (r: String)
    requires
        base64_size(data@.len()) <= isize::MAX,
    ensures
        r@ == base64_text(data@),
        base64_bytes(r@) == Some(data@),
{
    base64_encode(data)
}

/// The bytes of a base64 text, if it is one.
pub fn decode_b64(encoded: &str) -> (r: Option<Vec<u8>>)
    ensures
        match r {
            Some(data) => base64_bytes(encoded@) == Some(data@),
            None => base64_bytes(encoded@) is None,
        },
{
    base64_decode(encoded)
}

// ---- listings ----
/// What the file system says of one entry of a directory.
pub struct RawEntry {
    pub name: String,
    pub path: String,
    pub is_dir: bool,
    pub is_symlink: bool,
    pub size: u64,
    /// The permission bits, on a system that has them.
    pub mode: Option<u32>,
    pub uid: u32,
    pub gid: u32,
}

pub struct RawEntryView {
    pub name: Seq<char>,
    pub path: Seq<char>,
    pub is_dir: bool,
    pub is_symlink: bool,
    pub size: u64,
    pub mode: Option<u32>,
    pub uid: u32,
    pub gid: u32,
}

impl View for RawEntry {
    type V = RawEntryView;

    open spec fn view(&self) -> RawEntryView {
        RawEntryView {
            name: self.name@,
            path: self.path@,
            is_dir: self.is_dir,
            is_symlink: self.is_symlink,
            size: self.size,
            mode: self.mode,
            uid: self.uid,
            gid: self.gid,
        }
    }
}

pub open spec fn flag(on: bool, c: char) -> char {
    if on {
        c
    } else {
        '-'
    }
}

/// The kind of an entry and its nine permission bits, as `ls` writes them; a system without
/// permission bits shows none set.
pub open spec fn mode_text(is_dir: bool, is_symlink: bool, mode: Option<u32>) -> Seq<char> {
    match mode {
        Some(m) => seq![
            if is_dir {
                'd'
            } else {
                flag(is_symlink, 'l')
            },
            flag(m & 256 != 0, 'r'),
            flag(m & 128 != 0, 'w'),
            flag(m & 64 != 0, 'x'),
            flag(m & 32 != 0, 'r'),
            flag(m & 16 != 0, 'w'),
            flag(m & 8 != 0, 'x'),
            flag(m & 4 != 0, 'r'),
            flag(m & 2 != 0, 'w'),
            flag(m & 1 != 0, 'x'),
        ],
        None => seq![flag(is_dir, 'd'), '-', '-', '-', '-', '-', '-', '-', '-', '-'],
    }
}

fn flag_char(on: bool, c: char) -> (r: char)
    ensures
        r == flag(on, c),
{
    if on {
        c
    } else {
        '-'
    }
}

/// Writes the kind of an entry and its permission bits.
pub fn format_mode(is_dir: bool, is_symlink: bool, mode: Option<u32>) -> (r: String)
    ensures
        r@ == mode_text(is_dir, is_symlink, mode),
{
    let mut r = String::new();
    match mode {
        Some(m) => {
            r.push(
                if is_dir {
                    'd'
                } else {
                    flag_char(is_symlink, 'l')
                },
            );
            r.push(flag_char(m & 256 != 0, 'r'));
            r.push(flag_char(m & 128 != 0, 'w'));
            r.push(flag_char(m & 64 != 0, 'x'));
            r.push(flag_char(m & 32 != 0, 'r'));
            r.push(flag_char(m & 16 != 0, 'w'));
            r.push(flag_char(m & 8 != 0, 'x'));
            r.push(flag_char(m & 4 != 0, 'r'));
            r.push(flag_char(m & 2 != 0, 'w'));
            r.push(flag_char(m & 1 != 0, 'x'));
        },
        None => {
            r.push(flag_char(is_dir, 'd'));
            r.append("---------");
            proof {
                reveal_strlit("---------");
            }
        },
    }
    assert(r@ =~= mode_text(is_dir, is_symlink, mode));
    r
}

/// The numbers of a user and a group.
pub open spec fn owner_text(uid: u32, gid: u32) -> Seq<char> {
    decimal(uid as nat) + ":"@ + decimal(gid as nat)
}

/// Writes the numbers of a user and a group.
pub fn format_owner(uid: u32, gid: u32) -> (r: String)
    ensures
        r@ == owner_text(uid, gid),
{
    join3(decimal_u64(uid as u64).as_str(), ":", decimal_u64(gid as u64).as_str())
}

/// What the requester is told of an entry.
pub open spec fn entry_of(e: RawEntryView) -> FileEntryView {
    FileEntryView {
        name: e.name,
        path: e.path,
        entry_type: if e.is_dir {
            "directory"@
        } else {
            "file"@
        },
        size: e.size,
        mode: mode_text(e.is_dir, e.is_symlink, e.mode),
        owner: owner_text(e.uid, e.gid),
    }
}

fn make_entry(e: &RawEntry) -> (r: FileEntry)
    ensures
        r@ == entry_of(e@),
{
    FileEntry {
        name: e.name.clone(),
        path: e.path.clone(),
        entry_type: if e.is_dir {
            "directory".to_owned()
        } else {
            "file".to_owned()
        },
        size: e.size,
        mode: format_mode(e.is_dir, e.is_symlink, e.mode),
        owner: format_owner(e.uid, e.gid),
    }
}

/// Whether `a` comes before `b` in the order of texts: by the first character in which they differ.
pub open spec fn text_less(a: Seq<char>, b: Seq<char>) -> bool
    decreases a.len(),
{
    if b.len() == 0 {
        false
    } else if a.len() == 0 {
        true
    } else if a[0] != b[0] {
        a[0] < b[0]
    } else {
        text_less(a.skip(1), b.skip(1))
    }
}

/// Whether an entry is listed before another: by type, and by name within a type.
pub open spec fn entry_less(a: FileEntryView, b: FileEntryView) -> bool {
    text_less(a.entry_type, b.entry_type) || (a.entry_type == b.entry_type && text_less(
        a.name,
        b.name,
    ))
}

fn is_text_less(a: &str, b: &str) -> (r: bool)
    ensures
        r == text_less(a@, b@),
{
    let x = to_chars(a);
    let y = to_chars(b);
    let mut i: usize = 0;
    assert(a@.skip(0) =~= a@);
    assert(b@.skip(0) =~= b@);
    while i < x.len() && i < y.len() && x[i] == y[i]
        invariant
            i <= x@.len(),
            i <= y@.len(),
            x@ == a@,
            y@ == b@,
            text_less(a@, b@) == text_less(a@.skip(i as int), b@.skip(i as int)),
        decreases x@.len() - i,
    {
        assert(a@.skip(i as int).skip(1) =~= a@.skip(i + 1));
        assert(b@.skip(i as int).skip(1) =~= b@.skip(i + 1));
        i = i + 1;
    }
    if i == y.len() {
        false
    } else if i == x.len() {
        true
    } else {
        x[i] < y[i]
    }
}

fn is_entry_less(a: &FileEntry, b: &FileEntry) -> (r: bool)
    ensures
        r == entry_less(a@, b@),
{
    is_text_less(a.entry_type.as_str(), b.entry_type.as_str()) || (str_eq(
        a.entry_type.as_str(),
        b.entry_type.as_str(),
    ) && is_text_less(a.name.as_str(), b.name.as_str()))
}

/// An ordered listing with one entry more, after those that it is not listed before.
pub open spec fn inserted(v: Seq<FileEntryView>, e: FileEntryView) -> Seq<FileEntryView>
    decreases v.len(),
{
    if v.len() == 0 || !entry_less(e, v.last()) {
        v.push(e)
    } else {
        inserted(v.drop_last(), e).push(v.last())
    }
}

/// The listing of entries: directories and files by name; entries that are alike keep their order.
pub open spec fn listing(raw: Seq<RawEntryView>) -> Seq<FileEntryView>
    decreases raw.len(),
{
    if raw.len() == 0 {
        Seq::empty()
    } else {
        inserted(listing(raw.drop_last()), entry_of(raw.last()))
    }
}

pub open spec fn raw_view(v: Seq<RawEntry>) -> Seq<RawEntryView> {
    v.map_values(|e: RawEntry| e@)
}

proof fn lemma_inserted_at(v: Seq<FileEntryView>, e: FileEntryView, k: int)
    requires
        0 <= k <= v.len(),
        forall|i: int| k <= i < v.len() ==> entry_less(e, #[trigger] v[i]),
        k > 0 ==> !entry_less(e, v[k - 1]),
    ensures
        inserted(v, e) == v.insert(k, e),
    decreases v.len(),
{
    if k == v.len() {
        assert(v.insert(k, e) =~= v.push(e));
        if v.len() > 0 {
            assert(v.last() == v[k - 1]);
        }
    } else {
        assert(entry_less(e, v[v.len() - 1]));
        assert forall|i: int| k <= i < v.drop_last().len() implies entry_less(
            e,
            #[trigger] v.drop_last()[i],
        ) by {
            assert(v.drop_last()[i] == v[i]);
        }
        lemma_inserted_at(v.drop_last(), e, k);
        assert(v.drop_last().insert(k, e).push(v.last()) =~= v.insert(k, e));
    }
}

fn insert_entry(v: &mut Vec<FileEntry>, e: FileEntry)
    ensures
        entries_view(final(v)@) == inserted(entries_view(old(v)@), e@),
{
    let ghost all = entries_view(v@);
    let mut k: usize = v.len();
    while k > 0 && is_entry_less(&e, &v[k - 1])
        invariant
            k <= v@.len(),
            all == entries_view(v@),
            v@ == old(v)@,
            forall|i: int| k <= i < v@.len() ==> entry_less(e@, #[trigger] all[i]),
        decreases k,
    {
        k = k - 1;
        assert(all[k as int] == v@[k as int]@);
    }
    proof {
        lemma_inserted_at(all, e@, k as int);
    }
    let ghost doc = e@;
    v.insert(k, e);
    assert(entries_view(v@) =~= all.insert(k as int, doc));
}

/// Lists entries in their order.
pub fn sort_entries(raw: &Vec<RawEntry>) -> (r: Vec<FileEntry>)
    ensures
        entries_view(r@) == listing(raw_view(raw@)),
{
    let ghost all = raw_view(raw@);
    let mut r: Vec<FileEntry> = Vec::new();
    let mut i: usize = 0;
    assert(all.take(0) =~= Seq::<RawEntryView>::empty());
    assert(entries_view(r@) =~= Seq::<FileEntryView>::empty());
    while i < raw.len()
        invariant
            i <= raw@.len(),
            all == raw_view(raw@),
            entries_view(r@) == listing(all.take(i as int)),
        decreases raw@.len() - i,
    {
        assert(all.take(i + 1).drop_last() =~= all.take(i as int));
        assert(all.take(i + 1).last() == raw@[i as int]@);
        let e = make_entry(&raw[i]);
        insert_entry(&mut r, e);
        i = i + 1;
    }
    assert(all.take(all.len() as int) =~= all);
    r
}

proof fn lemma_text_order(a: Seq<char>, b: Seq<char>, c: Seq<char>)
    ensures
        !(text_less(a, b) && text_less(b, a)),
        a != b ==> text_less(a, b) || text_less(b, a),
        text_less(a, c) ==> text_less(a, b) || text_less(b, c),
    decreases a.len(),
{
    if a.len() > 0 && b.len() > 0 && a[0] == b[0] {
        let d = if c.len() > 0 {
            c.skip(1)
        } else {
            c
        };
        lemma_text_order(a.skip(1), b.skip(1), d);
        if a != b && a.skip(1) == b.skip(1) {
            assert(a =~= seq![a[0]] + a.skip(1));
            assert(b =~= seq![b[0]] + b.skip(1));
        }
    }
    if a.len() == 0 && b.len() == 0 {
        assert(a =~= b);
    }
}

proof fn lemma_entry_order(a: FileEntryView, b: FileEntryView, c: FileEntryView)
    ensures
        !(entry_less(a, b) && entry_less(b, a)),
        entry_less(a, c) ==> entry_less(a, b) || entry_less(b, c),
{
    lemma_text_order(a.entry_type, b.entry_type, c.entry_type);
    lemma_text_order(b.entry_type, a.entry_type, c.entry_type);
    lemma_text_order(a.name, b.name, c.name);
    lemma_text_order(a.entry_type, a.entry_type, a.entry_type);
}

/// No entry is listed after one that it comes before.
pub open spec fn ordered(v: Seq<FileEntryView>) -> bool {
    forall|i: int, j: int|
        0 <= i < j < v.len() ==> !entry_less(#[trigger] v[j], #[trigger] v[i])
}

proof fn lemma_inserted(v: Seq<FileEntryView>, e: FileEntryView)
    requires
        ordered(v),
    ensures
        ordered(inserted(v, e)),
        inserted(v, e).len() == v.len() + 1,
        inserted(v, e).to_multiset() == v.to_multiset().insert(e),
        forall|i: int|
            0 <= i < inserted(v, e).len() ==> #[trigger] inserted(v, e)[i] == e || v.contains(
                inserted(v, e)[i],
            ),
    decreases v.len(),
{
    broadcast use vstd::seq_lib::group_to_multiset_ensures;

    let w = inserted(v, e);
    if v.len() == 0 || !entry_less(e, v.last()) {
        assert forall|i: int, j: int| 0 <= i < j < w.len() implies !entry_less(
            #[trigger] w[j],
            #[trigger] w[i],
        ) by {
            if j == v.len() {
                if i < v.len() - 1 {
                    assert(!entry_less(v[v.len() - 1], v[i]));
                    lemma_entry_order(e, v.last(), v[i]);
                }
            }
        }
        assert forall|i: int| 0 <= i < w.len() implies #[trigger] w[i] == e || v.contains(w[i]) by {
            if i < v.len() {
                assert(v[i] == w[i]);
            }
        }
    } else {
        let init = v.drop_last();
        assert forall|i: int, j: int| 0 <= i < j < init.len() implies !entry_less(
            #[trigger] init[j],
            #[trigger] init[i],
        ) by {
            assert(!entry_less(v[j], v[i]));
        }
        lemma_inserted(init, e);
        let u = inserted(init, e);
        assert forall|i: int| 0 <= i < u.len() implies !entry_less(v.last(), #[trigger] u[i]) by {
            if u[i] == e {
                lemma_entry_order(e, v.last(), e);
            } else {
                let k = choose|k: int| 0 <= k < init.len() && init[k] == u[i];
                assert(!entry_less(v[v.len() - 1], v[k]));
            }
        }
        assert forall|i: int, j: int| 0 <= i < j < w.len() implies !entry_less(
            #[trigger] w[j],
            #[trigger] w[i],
        ) by {
            if j < u.len() {
                assert(!entry_less(u[j], u[i]));
            } else {
                assert(w[i] == u[i]);
            }
        }
        assert forall|i: int| 0 <= i < w.len() implies #[trigger] w[i] == e || v.contains(w[i]) by {
            if i < u.len() {
                assert(w[i] == u[i]);
                if u[i] != e {
                    let k = choose|k: int| 0 <= k < init.len() && init[k] == u[i];
                    assert(v[k] == u[i]);
                }
            } else {
                assert(v[v.len() - 1] == w[i]);
            }
        }
        assert(v =~= init.push(v.last()));
        assert(w.to_multiset() =~= v.to_multiset().insert(e));
    }
}

/// A listing holds each entry once, in order: by type, and by name within a type.
pub proof fn listing_is_ordered(raw: Seq<RawEntryView>)
    ensures
        ordered(listing(raw)),
        listing(raw).len() == raw.len(),
        listing(raw).to_multiset() == raw.map_values(|e: RawEntryView| entry_of(e)).to_multiset(),
    decreases raw.len(),
{
    broadcast use vstd::seq_lib::group_to_multiset_ensures;

    let docs = raw.map_values(|e: RawEntryView| entry_of(e));
    if raw.len() == 0 {
        assert(docs =~= Seq::<FileEntryView>::empty());
    } else {
        listing_is_ordered(raw.drop_last());
        lemma_inserted(listing(raw.drop_last()), entry_of(raw.last()));
        assert(docs =~= raw.drop_last().map_values(|e: RawEntryView| entry_of(e)).push(
            entry_of(raw.last()),
        ));
    }
}

// ---- file operations ----
/// It worked.
pub open spec fn fs_done(path: Seq<char>) -> FsResultView {
    FsResultView {
        success: true,
        error: None,
        entries: None,
        content: None,
        path: Some(path),
        new_path: None,
    }
}

/// It did not work, and why.
pub open spec fn fs_failed(error: Seq<char>, path: Seq<char>) -> FsResultView {
    FsResultView {
        success: false,
        error: Some(error),
        entries: None,
        content: None,
        path: Some(path),
        new_path: None,
    }
}

pub fn done(path: &str) -> (r: FsResultPayload)
    ensures
        r@ == fs_done(path@),
{
    FsResultPayload {
        success: true,
        error: None,
        entries: None,
        content: None,
        path: Some(path.to_owned()),
        new_path: None,
    }
}

pub fn failed(error: &str, path: &str) -> (r: FsResultPayload)
    ensures
        r@ == fs_failed(error@, path@),
{
    FsResultPayload {
        success: false,
        error: Some(error.to_owned()),
        entries: None,
        content: None,
        path: Some(path.to_owned()),
        new_path: None,
    }
}

/// What came of reading a directory.
pub enum ListOutcome {
    /// The request is about no path.
    Unresolved,
    Listed { path: String, entries: Vec<RawEntry> },
    Failed(String),
}

/// What the requester is told of a directory.
pub open spec fn list_result(user_path: Seq<char>, outcome: ListOutcome) -> FsResultView {
    match outcome {
        ListOutcome::Unresolved => fs_failed("Invalid path"@, user_path),
        ListOutcome::Listed { path, entries } => FsResultView {
            entries: Some(listing(raw_view(entries@))),
            ..fs_done(path@)
        },
        ListOutcome::Failed(e) => fs_failed("Failed to list directory: "@ + e@, user_path),
    }
}

/// Tells the requester of a directory.
pub fn list_dir(user_path: &str, outcome: ListOutcome) -> (r: FsResultPayload)
    ensures
        r@ == list_result(user_path@, outcome),
{
    match outcome {
        ListOutcome::Unresolved => failed("Invalid path", user_path),
        ListOutcome::Listed { path, entries } => FsResultPayload {
            success: true,
            error: None,
            entries: Some(sort_entries(&entries)),
            content: None,
            path: Some(path),
            new_path: None,
        },
        ListOutcome::Failed(e) => failed(
            join2("Failed to list directory: ", e.as_str()).as_str(),
            user_path,
        ),
    }
}

/// What came of reading a file.
pub enum ReadOutcome {
    /// The request is about no path.
    Unresolved,
    NotAFile,
    Data(Vec<u8>),
    Failed(String),
}

/// What the requester is told of a file: its bytes in base64.
pub open spec fn read_result(user_path: Seq<char>, outcome: ReadOutcome) -> FsResultView {
    match outcome {
        ReadOutcome::Unresolved => fs_failed("Invalid path"@, user_path),
        ReadOutcome::NotAFile => fs_failed("Path is not a file"@, user_path),
        ReadOutcome::Data(data) => FsResultView {
            content: Some(base64_text(data@)),
            ..fs_done(user_path)
        },
        ReadOutcome::Failed(e) => fs_failed("Failed to read file: "@ + e@, user_path),
    }
}

/// Tells the requester of a file. Decoding the content gives the bytes back.
pub fn read_file(user_path: &str, outcome: &ReadOutcome) -> (r: FsResultPayload)
    requires
        outcome matches ReadOutcome::Data(data) ==> base64_size(data@.len()) <= isize::MAX,
    ensures
        r@ == read_result(user_path@, *outcome),
        outcome matches ReadOutcome::Data(data) ==> base64_bytes(base64_text(data@)) == Some(data@),
{
    match outcome {
        ReadOutcome::Unresolved => failed("Invalid path", user_path),
        ReadOutcome::NotAFile => failed("Path is not a file", user_path),
        ReadOutcome::Data(data) => FsResultPayload {
            success: true,
            error: None,
            entries: None,
            content: Some(encode_b64(data.as_slice())),
            path: Some(user_path.to_owned()),
            new_path: None,
        },
        ReadOutcome::Failed(e) => failed(
            join2("Failed to read file: ", e.as_str()).as_str(),
            user_path,
        ),
    }
}

/// The content of chunk `index` of a file in base64, if the file has so many chunks. A chunk has at
/// most `CHUNK_SIZE` bytes; decoding the content gives them back.
pub fn read_chunk(data: &[u8], index: usize) -> (r: Option<String>)
    ensures
        match r {
            Some(content) => {
                &&& index < chunk_count(data@.len())
                &&& content@ == base64_text(chunk(data@, index as nat))
                &&& base64_bytes(content@) == Some(chunk(data@, index as nat))
            },
            None => index >= chunk_count(data@.len()),
        },
{
    let n = data.len();
    let count: usize = n / CHUNK_SIZE + if n % CHUNK_SIZE > 0 {
        1
    } else {
        0
    };
    if index >= count {
        return None;
    }
    proof {
        chunks_make_the_file(data@, index as nat);
        lemma_chunk_start(n as nat, index as nat);
    }
    let from: usize = index * CHUNK_SIZE;
    let to: usize = if n - from > CHUNK_SIZE {
        from + CHUNK_SIZE
    } else {
        n
    };
    let mut bytes: Vec<u8> = Vec::new();
    let mut i: usize = from;
    while i < to
        invariant
            from <= i <= to <= data@.len(),
            bytes@ == data@.subrange(from as int, i as int),
        decreases to - i,
    {
        bytes.push(data[i]);
        assert(data@.subrange(from as int, i as int).push(data@[i as int]) =~= data@.subrange(
            from as int,
            i + 1,
        ));
        i = i + 1;
    }
    Some(encode_b64(bytes.as_slice()))
}

proof fn lemma_chunk_start(n: nat, i: nat)
    requires
        i < chunk_count(n),
    ensures
        i * CHUNK_SIZE < n,
        (i + 1) * CHUNK_SIZE == i * CHUNK_SIZE + CHUNK_SIZE,
{
    assert(i * 262144 < n) by (nonlinear_arith)
        requires
            i < (n + 262144 - 1) as nat / 262144,
    ;
    assert((i + 1) * 262144 == i * 262144 + 262144) by (nonlinear_arith);
}

/// What the contents of the chunks of a download decode to, joined.
pub open spec fn downloaded(contents: Seq<Seq<char>>) -> Seq<u8>
    decreases contents.len(),
{
    if contents.len() == 0 {
        Seq::empty()
    } else {
        downloaded(contents.drop_last()) + match base64_bytes(contents.last()) {
            Some(data) => data,
            None => Seq::empty(),
        }
    }
}

/// A file that is read in chunks arrives whole: the contents of its chunks, decoded and joined in
/// order, are the file.
pub proof fn download_arrives_whole(data: Seq<u8>, contents: Seq<Seq<char>>)
    requires
        contents.len() == chunk_count(data.len()),
        forall|i: int|
            0 <= i < contents.len() ==> base64_bytes(#[trigger] contents[i]) == Some(
                chunk(data, i as nat),
            ),
    ensures
        downloaded(contents) == data,
{
    lemma_downloaded(data, contents, contents.len());
    assert(contents.take(contents.len() as int) =~= contents);
    chunks_make_the_file(data, 0);
}

proof fn lemma_downloaded(data: Seq<u8>, contents: Seq<Seq<char>>, n: nat)
    requires
        n <= contents.len(),
        forall|i: int|
            0 <= i < contents.len() ==> base64_bytes(#[trigger] contents[i]) == Some(
                chunk(data, i as nat),
            ),
    ensures
        downloaded(contents.take(n as int)) == joined(data, n),
    decreases n,
{
    if n > 0 {
        lemma_downloaded(data, contents, (n - 1) as nat);
        assert(contents.take(n as int).drop_last() =~= contents.take(n - 1));
        assert(contents.take(n as int).last() == contents[n - 1]);
    }
}

/// What is to be done about a request to write a file.
pub enum WritePlan {
    Refused(FsResultPayload),
    /// Write these bytes.
    Write(Vec<u8>),
}

pub enum WritePlanView {
    Refused(FsResultView),
    Write(Seq<u8>),
}

impl View for WritePlan {
    type V = WritePlanView;

    open spec fn view(&self) -> WritePlanView {
        match self {
            WritePlan::Refused(p) => WritePlanView::Refused(p@),
            WritePlan::Write(data) => WritePlanView::Write(data@),
        }
    }
}

/// What is written: the bytes of the content, where the request is about a path and the content is
/// base64.
pub open spec fn write_plan(
    user_path: Seq<char>,
    path_resolved: bool,
    content: Seq<char>,
) -> WritePlanView {
    if !path_resolved {
        WritePlanView::Refused(fs_failed("Invalid path"@, user_path))
    } else {
        match base64_bytes(content) {
            Some(data) => WritePlanView::Write(data),
            None => WritePlanView::Refused(fs_failed("Invalid base64 content"@, user_path)),
        }
    }
}

/// Decides on a request to write a file whose content came in base64.
pub fn plan_write(user_path: &str, path_resolved: bool, content_b64: &str) -> (r: WritePlan)
    ensures
        match r {
            WritePlan::Refused(p) => p@ == (if !path_resolved {
                fs_failed("Invalid path"@, user_path@)
            } else {
                fs_failed("Invalid base64 content"@, user_path@)
            }) && (path_resolved ==> base64_bytes(content_b64@) is None),
            WritePlan::Write(data) => path_resolved && base64_bytes(content_b64@) == Some(data@),
        },
        r@ == write_plan(user_path@, path_resolved, content_b64@),
{
    if !path_resolved {
        return WritePlan::Refused(failed("Invalid path", user_path));
    }
    match decode_b64(content_b64) {
        Some(data) => WritePlan::Write(data),
        None => WritePlan::Refused(failed("Invalid base64 content", user_path)),
    }
}

/// What came of writing a file.
pub enum WriteOutcome {
    /// The request is about no path.
    Unresolved,
    Written,
    /// The directory to write into could not be made.
    NoParent(String),
    Failed(String),
}

/// What the requester is told of a file that was to be written.
pub open spec fn write_result(user_path: Seq<char>, outcome: WriteOutcome) -> FsResultView {
    match outcome {
        WriteOutcome::Unresolved => fs_failed("Invalid path"@, user_path),
        WriteOutcome::Written => fs_done(user_path),
        WriteOutcome::NoParent(e) => fs_failed(
            "Failed to create parent directory: "@ + e@,
            user_path,
        ),
        WriteOutcome::Failed(e) => fs_failed("Failed to write file: "@ + e@, user_path),
    }
}

/// Tells the requester of a file that was to be written.
pub fn write_file(user_path: &str, outcome: &WriteOutcome) -> (r: FsResultPayload)
    ensures
        r@ == write_result(user_path@, *outcome),
{
    match outcome {
        WriteOutcome::Unresolved => failed("Invalid path", user_path),
        WriteOutcome::Written => done(user_path),
        WriteOutcome::NoParent(e) => failed(
            join2("Failed to create parent directory: ", e.as_str()).as_str(),
            user_path,
        ),
        WriteOutcome::Failed(e) => failed(
            join2("Failed to write file: ", e.as_str()).as_str(),
            user_path,
        ),
    }
}

/// What the requester is told of bytes that were to be written to a file.
pub open spec fn write_bytes_result(
    user_path: Seq<char>,
    path_resolved: bool,
    error: Option<Seq<char>>,
) -> FsResultView {
    if !path_resolved {
        fs_failed("Invalid path"@, user_path)
    } else {
        match error {
            None => fs_done(user_path),
            Some(e) => fs_failed("Failed to write file: "@ + e, user_path),
        }
    }
}

/// Tells the requester of bytes that were to be written to a file.
pub fn write_file_bytes(user_path: &str, path_resolved: bool, error: Option<&str>) -> (r:
    FsResultPayload)
    ensures
        r@ == write_bytes_result(user_path@, path_resolved, opt_str(error)),
{
    if !path_resolved {
        return failed("Invalid path", user_path);
    }
    match error {
        None => done(user_path),
        Some(e) => failed(join2("Failed to write file: ", e).as_str(), user_path),
    }
}

/// What is to be done about a request to delete.
pub enum DeletePlan {
    Refused(FsResultPayload),
    /// Delete the directory and all in it.
    RemoveDir,
    RemoveFile,
}

pub enum DeletePlanView {
    Refused(FsResultView),
    RemoveDir,
    RemoveFile,
}

impl View for DeletePlan {
    type V = DeletePlanView;

    open spec fn view(&self) -> DeletePlanView {
        match self {
            DeletePlan::Refused(p) => DeletePlanView::Refused(p@),
            DeletePlan::RemoveDir => DeletePlanView::RemoveDir,
            DeletePlan::RemoveFile => DeletePlanView::RemoveFile,
        }
    }
}

/// What is deleted: a directory with all in it, or a file; never the root of the file manager.
pub open spec fn delete_plan(
    user_path: Seq<char>,
    path: Option<Seq<char>>,
    root: Seq<char>,
    root_canonical: Seq<char>,
    is_dir: bool,
) -> DeletePlanView {
    match path {
        None => DeletePlanView::Refused(fs_failed("Invalid path"@, user_path)),
        Some(p) => if same_path(p, root_canonical) || same_path(p, root) {
            DeletePlanView::Refused(fs_failed("Cannot delete root directory"@, user_path))
        } else if is_dir {
            DeletePlanView::RemoveDir
        } else {
            DeletePlanView::RemoveFile
        },
    }
}

/// Decides on a request to delete.
pub fn plan_delete(
    user_path: &str,
    path: Option<&str>,
    root: &str,
    root_canonical: &str,
    is_dir: bool,
) -> (r: DeletePlan)
    ensures
        r@ == delete_plan(user_path@, opt_str(path), root@, root_canonical@, is_dir),
{
    match path {
        None => DeletePlan::Refused(failed("Invalid path", user_path)),
        Some(p) => if is_same_path(p, root_canonical) || is_same_path(p, root) {
            DeletePlan::Refused(failed("Cannot delete root directory", user_path))
        } else if is_dir {
            DeletePlan::RemoveDir
        } else {
            DeletePlan::RemoveFile
        },
    }
}

/// The root of the file manager is never deleted.
pub proof fn root_is_not_deleted(
    user_path: Seq<char>,
    root: Seq<char>,
    root_canonical: Seq<char>,
    is_dir: bool,
)
    ensures
        delete_plan(user_path, Some(root), root, root_canonical, is_dir) is Refused,
        delete_plan(user_path, Some(root_canonical), root, root_canonical, is_dir) is Refused,
{
}

/// What the requester is told of what was to be deleted.
pub open spec fn delete_result(user_path: Seq<char>, error: Option<Seq<char>>) -> FsResultView {
    match error {
        None => fs_done(user_path),
        Some(e) => fs_failed("Failed to delete: "@ + e, user_path),
    }
}

/// Tells the requester of what was to be deleted.
pub fn delete_path(user_path: &str, error: Option<&str>) -> (r: FsResultPayload)
    ensures
        r@ == delete_result(user_path@, opt_str(error)),
{
    match error {
        None => done(user_path),
        Some(e) => failed(join2("Failed to delete: ", e).as_str(), user_path),
    }
}

/// What came of renaming.
pub enum RenameOutcome {
    /// The request is about no source path.
    NoSource,
    /// The request is about no destination path.
    NoDestination,
    Renamed,
    Failed(String),
}

/// What the requester is told of a path that was to be renamed.
pub open spec fn rename_result(
    from: Seq<char>,
    to: Seq<char>,
    outcome: RenameOutcome,
) -> FsResultView {
    let r = match outcome {
        RenameOutcome::NoSource => fs_failed("Source path resolution failed"@, from),
        RenameOutcome::NoDestination => fs_failed("Destination path resolution failed"@, from),
        RenameOutcome::Renamed => fs_done(from),
        RenameOutcome::Failed(e) => fs_failed("Failed to rename: "@ + e@, from),
    };
    FsResultView { new_path: Some(to), ..r }
}

/// Tells the requester of a path that was to be renamed.
pub fn rename_path(from: &str, to: &str, outcome: &RenameOutcome) -> (r: FsResultPayload)
    ensures
        r@ == rename_result(from@, to@, *outcome),
{
    let mut r = match outcome {
        RenameOutcome::NoSource => failed("Source path resolution failed", from),
        RenameOutcome::NoDestination => failed("Destination path resolution failed", from),
        RenameOutcome::Renamed => done(from),
        RenameOutcome::Failed(e) => failed(
            join2("Failed to rename: ", e.as_str()).as_str(),
            from,
        ),
    };
    r.new_path = Some(to.to_owned());
    r
}

/// What the requester is told of a directory that was to be made.
pub open spec fn create_result(
    user_path: Seq<char>,
    path_resolved: bool,
    error: Option<Seq<char>>,
) -> FsResultView {
    if !path_resolved {
        fs_failed("Invalid path"@, user_path)
    } else {
        match error {
            None => fs_done(user_path),
            Some(e) => fs_failed(e, user_path),
        }
    }
}

/// Tells the requester of a directory that was to be made.
pub fn create_dir(user_path: &str, path_resolved: bool, error: Option<&str>) -> (r: FsResultPayload)
    ensures
        r@ == create_result(user_path@, path_resolved, opt_str(error)),
{
    if !path_resolved {
        failed("Invalid path", user_path)
    } else {
        match error {
            None => done(user_path),
            Some(e) => failed(e, user_path),
        }
    }
}

} // verus!
