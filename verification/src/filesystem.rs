//! Guest and host paths, and the binding table that maps one to the other.
//!
//! A binding makes the host directory `host` appear at the guest path
//! `guest`. The table is ordered: the first binding that covers a path
//! translates it.

use vstd::prelude::*;
use crate::bytes::{has_prefix, push_from, starts_with};
use crate::errors::Errno;

verus! {

/// The path separator.
pub const SLASH: u8 = 47;

/// The byte of which the components `.` and `..` are made.
pub const DOT: u8 = 46;

/// Length that a path, with its terminator, may not exceed.
pub const PATH_MAX: usize = 4096;

/// Why a path could not be translated.
#[derive(Clone, Copy, Debug, PartialEq, Eq, Structural)]
pub enum PathError {
    /// The path is not absolute, or holds an empty component, a `.` or `..`
    /// component, a trailing separator or a zero byte.
    NotCanonical,
    /// No binding covers the path.
    NoBinding,
    /// The path, or its translation, does not fit in `PATH_MAX` bytes.
    TooLong,
}

impl PathError {
    /// The kernel error a traced process observes for this failure.
    pub open spec fn spec_errno(self) -> Errno {
        match self {
            PathError::NotCanonical => Errno::ENOENT,
            PathError::NoBinding => Errno::ENOENT,
            PathError::TooLong => Errno::ENAMETOOLONG,
        }
    }

    /// The kernel error a traced process observes for this failure.
    pub fn errno(self) -> (e: Errno)
        ensures
            e == self.spec_errno(),
    {
        match self {
            PathError::NotCanonical => Errno::ENOENT,
            PathError::NoBinding => Errno::ENOENT,
            PathError::TooLong => Errno::ENAMETOOLONG,
        }
    }
}

/// Whether a path starts at the root.
pub open spec fn is_absolute(p: Seq<u8>) -> bool {
    p.len() > 0 && p[0] == SLASH
}

/// Whether `p` is the root directory.
pub open spec fn is_root(p: Seq<u8>) -> bool {
    p.len() == 1 && p[0] == SLASH
}

/// Whether a component ends just before position `i`: the path ends there or
/// a separator stands there.
pub open spec fn ends_component(p: Seq<u8>, i: int) -> bool {
    i >= p.len() || p[i] == SLASH
}

/// Whether something at position `i` keeps `p` from being canonical: a zero
/// byte, a trailing separator, or a separator followed by an empty, `.` or
/// `..` component.
pub open spec fn flaw_at(p: Seq<u8>, i: int) -> bool {
    ||| p[i] == 0
    ||| (p[i] == SLASH && 0 < i && i + 1 == p.len())
    ||| (p[i] == SLASH && i + 1 < p.len() && p[i + 1] == SLASH)
    ||| (p[i] == SLASH && i + 1 < p.len() && p[i + 1] == DOT && ends_component(p, i + 2))
    ||| (p[i] == SLASH && i + 2 < p.len() && p[i + 1] == DOT && p[i + 2] == DOT && ends_component(
        p,
        i + 3,
    ))
}

/// Whether `p` is an absolute path in canonical form: it starts at the root
/// and every component is a proper name.
pub open spec fn is_canonical(p: Seq<u8>) -> bool {
    &&& p.len() > 0
    &&& p[0] == SLASH
    &&& forall|i: int| 0 <= i < p.len() ==> !#[trigger] flaw_at(p, i)
}

/// Whether the canonical path `p` is `prefix` itself or lies below it.
pub open spec fn covers(prefix: Seq<u8>, p: Seq<u8>) -> bool {
    is_root(prefix) || (starts_with(p, prefix) && (p.len() == prefix.len() || p[prefix.len() as int]
        == SLASH))
}

/// Where in `p` the part below `prefix` starts.
pub open spec fn tail_start(prefix: Seq<u8>, p: Seq<u8>) -> int {
    if is_root(prefix) {
        if is_root(p) {
            1
        } else {
            0
        }
    } else {
        prefix.len() as int
    }
}

/// A prefix as it is joined to a tail: the root contributes nothing.
pub open spec fn base(prefix: Seq<u8>) -> Seq<u8> {
    if is_root(prefix) {
        Seq::empty()
    } else {
        prefix
    }
}

/// The path `p`, which `from` covers, moved below `to`.
pub open spec fn rebase(p: Seq<u8>, from: Seq<u8>, to: Seq<u8>) -> Seq<u8> {
    let joined = base(to) + p.skip(tail_start(from, p));
    if joined.len() == 0 {
        seq![SLASH]
    } else {
        joined
    }
}

/// Moving a path below another prefix keeps it canonical, the new prefix
/// covers it, and moving it back gives the path one started from.
pub proof fn lemma_rebase(p: Seq<u8>, from: Seq<u8>, to: Seq<u8>)
    requires
        is_canonical(p),
        is_canonical(from),
        is_canonical(to),
        covers(from, p),
    ensures
        is_canonical(rebase(p, from, to)),
        covers(to, rebase(p, from, to)),
        rebase(rebase(p, from, to), to, from) == p,
{
    let start = tail_start(from, p);
    let tail = p.skip(start);
    let moved = rebase(p, from, to);
    // The tail is empty or starts a component.
    assert(tail.len() > 0 ==> tail[0] == SLASH);
    assert(tail.len() != 1) by {
        if tail.len() == 1 {
            assert(!flaw_at(p, p.len() - 1));
        }
    }
    assert forall|i: int| 0 <= i < tail.len() implies !#[trigger] flaw_at(tail, i) by {
        assert(!flaw_at(p, start + i));
    }
    if is_root(to) {
        assert(base(to) + tail =~= tail);
    } else {
        let joined = to + tail;
        assert(moved == joined);
        assert forall|i: int| 0 <= i < joined.len() implies !#[trigger] flaw_at(joined, i) by {
            if i < to.len() {
                assert(!flaw_at(to, i));
                assert(!flaw_at(to, to.len() - 1));
            } else {
                assert(!flaw_at(tail, i - to.len()));
            }
        }
        assert(joined.subrange(0, to.len() as int) =~= to);
        assert(joined.skip(to.len() as int) =~= tail);
    }
    assert(is_canonical(moved));
    assert(covers(to, moved));
    assert(moved.skip(tail_start(to, moved)) =~= tail);
    if is_root(from) {
        assert(base(from) + tail =~= tail);
    } else {
        assert(p.subrange(0, from.len() as int) == from);
        assert(from + tail =~= p);
    }
}

/// Whether the byte at position `i` of `p` belongs to its tidy form. A
/// separator stays if a name follows it, that is a component other than the
/// empty one and `.`; a dot goes if it is a component by itself; every other
/// byte stays.
pub open spec fn stays(p: Seq<u8>, i: int) -> bool {
    if p[i] == SLASH {
        i + 1 < p.len() && p[i + 1] != SLASH && !(p[i + 1] == DOT && ends_component(p, i + 2))
    } else if p[i] == DOT {
        !(i > 0 && p[i - 1] == SLASH && ends_component(p, i + 1))
    } else {
        true
    }
}

/// The bytes among the first `n` of `p` that belong to its tidy form.
pub open spec fn kept(p: Seq<u8>, n: int) -> Seq<u8>
    decreases n,
{
    if n <= 0 {
        Seq::empty()
    } else if stays(p, n - 1) {
        kept(p, n - 1).push(p[n - 1])
    } else {
        kept(p, n - 1)
    }
}

/// The tidy form of an absolute path: the path without its empty and `.`
/// components and without a trailing separator. It names the same file.
/// Components `..` are not touched: what they name depends on the links on
/// the way.
pub open spec fn tidied(p: Seq<u8>) -> Seq<u8> {
    if kept(p, p.len() as int).len() == 0 && p.len() > 0 {
        seq![SLASH]
    } else {
        kept(p, p.len() as int)
    }
}

/// A canonical path is its own tidy form.
pub proof fn lemma_canonical_is_tidy(p: Seq<u8>)
    requires
        is_canonical(p),
    ensures
        tidied(p) == p,
{
    if is_root(p) {
        assert(kept(p, 1) == kept(p, 0));
        assert(p =~= seq![SLASH]);
    } else {
        lemma_canonical_keeps(p, p.len() as int);
        assert(p.subrange(0, p.len() as int) =~= p);
    }
}

/// Every byte of a canonical path other than the root stays.
proof fn lemma_canonical_keeps(p: Seq<u8>, n: int)
    requires
        is_canonical(p),
        !is_root(p),
        0 <= n <= p.len(),
    ensures
        kept(p, n) == p.subrange(0, n),
    decreases n,
{
    if n > 0 {
        lemma_canonical_keeps(p, n - 1);
        assert(!flaw_at(p, n - 1));
        if n >= 2 {
            assert(!flaw_at(p, n - 2));
        }
        assert(stays(p, n - 1));
        assert(p.subrange(0, n - 1).push(p[n - 1]) =~= p.subrange(0, n));
    } else {
        assert(p.subrange(0, 0) =~= Seq::<u8>::empty());
    }
}

/// Brings an absolute path into its tidy form.
pub fn tidy(p: &Vec<u8>) -> (out: Vec<u8>)
    ensures
        out@ == tidied(p@),
{
    let n = p.len();
    let mut out: Vec<u8> = Vec::new();
    let mut i: usize = 0;
    while i < n
        invariant
            n == p.len(),
            i <= n,
            out@ == kept(p@, i as int),
        decreases n - i,
    {
        let c = p[i];
        let stay = if c == SLASH {
            i + 1 < n && p[i + 1] != SLASH && !(p[i + 1] == DOT && (i + 2 >= n || p[i + 2]
                == SLASH))
        } else if c == DOT {
            !(i > 0 && p[i - 1] == SLASH && (i + 1 >= n || p[i + 1] == SLASH))
        } else {
            true
        };
        if stay {
            out.push(c);
        }
        i += 1;
    }
    if out.len() == 0 && n > 0 {
        out.push(SLASH);
        assert(out@ =~= seq![SLASH]);
    }
    out
}

/// Whether a component `..` starts behind the separator at position `i`.
pub open spec fn dotdot_at(p: Seq<u8>, i: int) -> bool {
    p[i] == SLASH && i + 2 < p.len() && p[i + 1] == DOT && p[i + 2] == DOT && ends_component(
        p,
        i + 3,
    )
}

/// Whether tidying makes `p` canonical: it is absolute and holds neither a
/// zero byte nor a component `..`.
pub open spec fn tidyable(p: Seq<u8>) -> bool {
    &&& is_absolute(p)
    &&& forall|i: int| 0 <= i < p.len() ==> p[i] != 0 && !#[trigger] dotdot_at(p, i)
}

/// Whether what follows the separator at position `j` of `q`, as far as `q`
/// reaches, can still become a name.
spec fn sound_at(q: Seq<u8>, j: int) -> bool {
    q[j] == SLASH ==> {
        &&& j + 1 < q.len() ==> q[j + 1] != SLASH
        &&& j + 2 < q.len() && q[j + 1] == DOT ==> q[j + 2] != SLASH
        &&& j + 3 < q.len() && q[j + 1] == DOT && q[j + 2] == DOT ==> q[j + 3] != SLASH
    }
}

/// What the bytes kept so far look like.
proof fn lemma_kept_shape(p: Seq<u8>, n: int)
    requires
        tidyable(p),
        0 <= n <= p.len(),
    ensures
        ({
            let q = kept(p, n);
            let m = q.len() as int;
            &&& m <= n
            &&& m > 0 ==> q[0] == SLASH
            &&& forall|j: int| 0 <= j < m ==> #[trigger] sound_at(q, j)
            &&& forall|j: int| 0 <= j < m ==> #[trigger] q[j] != 0
            &&& m == 0 && n > 0 ==> !stays(p, n - 1)
            &&& m >= 1 && q[m - 1] == SLASH ==> p[n - 1] == SLASH && stays(p, n - 1)
            &&& m >= 2 && q[m - 2] == SLASH && q[m - 1] == DOT ==> p[n - 2] == SLASH && stays(
                p,
                n - 2,
            ) && p[n - 1] == DOT
            &&& m >= 3 && q[m - 3] == SLASH && q[m - 2] == DOT && q[m - 1] == DOT ==> p[n - 3]
                == SLASH && p[n - 2] == DOT && p[n - 1] == DOT
        }),
    decreases n,
{
    if n > 0 {
        lemma_kept_shape(p, n - 1);
        let old_q = kept(p, n - 1);
        let q = kept(p, n);
        let c = p[n - 1];
        assert(!dotdot_at(p, n - 1));
        if n >= 4 {
            assert(!dotdot_at(p, n - 4));
        }
        if stays(p, n - 1) {
            assert(q == old_q.push(c));
            assert forall|j: int| 0 <= j < q.len() implies #[trigger] sound_at(q, j) by {
                if j < old_q.len() {
                    assert(sound_at(old_q, j));
                    assert(q[j] == old_q[j]);
                }
            }
            assert forall|j: int| 0 <= j < q.len() implies #[trigger] q[j] != 0 by {
                if j < old_q.len() {
                    assert(q[j] == old_q[j]);
                }
            }
        } else {
            assert(q == old_q);
        }
    }
}

/// The tidy form of an absolute path that holds neither a zero byte nor a
/// component `..` is canonical.
pub proof fn lemma_tidy_is_canonical(p: Seq<u8>)
    requires
        tidyable(p),
    ensures
        is_canonical(tidied(p)),
{
    let n = p.len() as int;
    let q = kept(p, n);
    lemma_kept_shape(p, n);
    if q.len() > 0 {
        assert forall|j: int| 0 <= j < q.len() implies !#[trigger] flaw_at(q, j) by {
            assert(sound_at(q, j));
            if n >= 3 {
                assert(!dotdot_at(p, n - 3));
            }
        }
    }
}

/// Decides whether `p` is an absolute path in canonical form.
pub fn check_canonical(p: &Vec<u8>) -> (ok: bool)
    ensures
        ok == is_canonical(p@),
{
    let n = p.len();
    if n == 0 || p[0] != SLASH {
        return false;
    }
    let mut i: usize = 0;
    while i < n
        invariant
            n == p.len(),
            i <= n,
            forall|j: int| 0 <= j < i ==> !#[trigger] flaw_at(p@, j),
        decreases n - i,
    {
        let c = p[i];
        if c == 0 {
            assert(flaw_at(p@, i as int));
            return false;
        }
        if c == SLASH {
            if i + 1 == n {
                if i > 0 {
                    assert(flaw_at(p@, i as int));
                    return false;
                }
            } else {
                let d = p[i + 1];
                if d == SLASH {
                    assert(flaw_at(p@, i as int));
                    return false;
                }
                if d == DOT {
                    if i + 2 == n || p[i + 2] == SLASH {
                        assert(flaw_at(p@, i as int));
                        return false;
                    }
                    if p[i + 2] == DOT && (i + 3 == n || p[i + 3] == SLASH) {
                        assert(flaw_at(p@, i as int));
                        return false;
                    }
                }
            }
        }
        i += 1;
    }
    true
}

/// Decides whether `p` is the root directory.
pub fn check_root(p: &Vec<u8>) -> (yes: bool)
    ensures
        yes == is_root(p@),
{
    p.len() == 1 && p[0] == SLASH
}

/// Decides whether `prefix` covers `p`.
pub fn check_covers(prefix: &Vec<u8>, p: &Vec<u8>) -> (yes: bool)
    ensures
        yes == covers(prefix@, p@),
{
    if check_root(prefix) {
        return true;
    }
    if !has_prefix(p, prefix) {
        return false;
    }
    p.len() == prefix.len() || p[prefix.len()] == SLASH
}

/// Moves the path `p` from below `from` to below `to`.
pub fn move_below(p: &Vec<u8>, from: &Vec<u8>, to: &Vec<u8>) -> (moved: Vec<u8>)
    requires
        covers(from@, p@),
        p.len() > 0,
    ensures
        moved@ == rebase(p@, from@, to@),
{
    let start: usize = if check_root(from) {
        if check_root(p) {
            1
        } else {
            0
        }
    } else {
        from.len()
    };
    let mut moved: Vec<u8> = Vec::new();
    if !check_root(to) {
        push_from(&mut moved, to, 0);
        assert(to@.skip(0) =~= to@);
    }
    assert(moved@ =~= base(to@));
    push_from(&mut moved, p, start);
    if moved.len() == 0 {
        moved.push(SLASH);
        assert(moved@ =~= seq![SLASH]);
    }
    moved
}

/// One entry of the binding table.
#[derive(Clone, Debug, PartialEq, Eq)]
pub struct Binding {
    /// Where the directory appears to a traced process.
    pub guest: Vec<u8>,
    /// Where the directory is on the host.
    pub host: Vec<u8>,
    /// Whether traced processes may only read below this binding.
    pub read_only: bool,
}

/// A binding as contracts see it.
pub ghost struct BindingView {
    pub guest: Seq<u8>,
    pub host: Seq<u8>,
    pub read_only: bool,
}

impl View for Binding {
    type V = BindingView;

    open spec fn view(&self) -> BindingView {
        BindingView { guest: self.guest@, host: self.host@, read_only: self.read_only }
    }
}

/// The two ways a path can be translated.
#[derive(Clone, Copy, Debug, PartialEq, Eq, Structural)]
pub enum Direction {
    /// From what a traced process names to where it is on the host.
    ToHost,
    /// From a host path back to what a traced process may see.
    ToGuest,
}

impl BindingView {
    /// The prefix that a path must lie below to be translated by this
    /// binding in the given direction.
    pub open spec fn source(self, dir: Direction) -> Seq<u8> {
        match dir {
            Direction::ToHost => self.guest,
            Direction::ToGuest => self.host,
        }
    }

    /// The prefix that a translated path lies below.
    pub open spec fn target(self, dir: Direction) -> Seq<u8> {
        match dir {
            Direction::ToHost => self.host,
            Direction::ToGuest => self.guest,
        }
    }

    /// Both prefixes are canonical and leave room for a terminator.
    pub open spec fn wf(self) -> bool {
        &&& is_canonical(self.guest)
        &&& is_canonical(self.host)
        &&& self.guest.len() < PATH_MAX
        &&& self.host.len() < PATH_MAX
    }
}

impl Direction {
    /// The opposite direction.
    pub open spec fn reverse(self) -> Direction {
        match self {
            Direction::ToHost => Direction::ToGuest,
            Direction::ToGuest => Direction::ToHost,
        }
    }
}

/// Every binding of the table is well formed.
pub open spec fn table_wf(table: Seq<BindingView>) -> bool {
    forall|i: int| 0 <= i < table.len() ==> (#[trigger] table[i]).wf()
}

/// Whether binding `i` is the one that translates `p`: it covers `p` and no
/// earlier binding does.
pub open spec fn selects(table: Seq<BindingView>, dir: Direction, p: Seq<u8>, i: int) -> bool {
    &&& 0 <= i < table.len()
    &&& covers(table[i].source(dir), p)
    &&& forall|j: int| 0 <= j < i ==> !covers(#[trigger] table[j].source(dir), p)
}

/// Whether some binding covers `p`.
pub open spec fn is_covered(table: Seq<BindingView>, dir: Direction, p: Seq<u8>) -> bool {
    exists|i: int| 0 <= i < table.len() && covers(#[trigger] table[i].source(dir), p)
}

/// The index of the binding that translates `p`, if any covers it.
pub open spec fn selected(table: Seq<BindingView>, dir: Direction, p: Seq<u8>) -> Option<int> {
    if exists|i: int| selects(table, dir, p, i) {
        Some(choose|i: int| selects(table, dir, p, i))
    } else {
        None
    }
}

/// What translating `p` gives.
///
/// A path that is too long or not canonical is refused; so is one that no
/// binding covers. Otherwise the first covering binding moves the path from
/// below its source prefix to below its target prefix.
pub open spec fn translation(table: Seq<BindingView>, dir: Direction, p: Seq<u8>) -> Result<
    Seq<u8>,
    PathError,
> {
    if p.len() >= PATH_MAX {
        Err(PathError::TooLong)
    } else if !is_canonical(p) {
        Err(PathError::NotCanonical)
    } else {
        match selected(table, dir, p) {
            None => Err(PathError::NoBinding),
            Some(i) => {
                let moved = rebase(p, table[i].source(dir), table[i].target(dir));
                if moved.len() >= PATH_MAX {
                    Err(PathError::TooLong)
                } else {
                    Ok(moved)
                }
            },
        }
    }
}

/// Whether the binding that translates the guest path `p` is read-only.
pub open spec fn write_protected(table: Seq<BindingView>, p: Seq<u8>) -> bool {
    selected(table, Direction::ToHost, p) matches Some(i) && table[i].read_only
}

/// What resolving the path `p` that a tracee names gives: the translation
/// to the host of its tidy form.
pub open spec fn resolution(table: Seq<BindingView>, p: Seq<u8>) -> Result<Seq<u8>, PathError> {
    translation(table, Direction::ToHost, tidied(p))
}

/// At most one binding is selected, and `selected` names it.
pub proof fn lemma_selected(table: Seq<BindingView>, dir: Direction, p: Seq<u8>, i: int)
    requires
        selects(table, dir, p, i),
    ensures
        selected(table, dir, p) == Some(i),
{
    let chosen = choose|k: int| selects(table, dir, p, k);
    assert(selects(table, dir, p, chosen));
    if chosen < i {
        assert(!covers(table[chosen].source(dir), p));
    } else if i < chosen {
        assert(!covers(table[i].source(dir), p));
    }
}

/// A binding is selected exactly when some binding covers the path.
pub proof fn lemma_selected_iff_covered(table: Seq<BindingView>, dir: Direction, p: Seq<u8>)
    ensures
        selected(table, dir, p) is Some <==> is_covered(table, dir, p),
        selected(table, dir, p) matches Some(i) ==> selects(table, dir, p, i),
    decreases table.len(),
{
    if is_covered(table, dir, p) {
        let k = choose|i: int| 0 <= i < table.len() && covers(#[trigger] table[i].source(dir), p);
        lemma_first_cover(table, dir, p, k);
    }
    if selected(table, dir, p) is Some {
        let i = choose|i: int| selects(table, dir, p, i);
        assert(covers(table[i].source(dir), p));
    }
}

/// Below any covering binding there is a first one.
proof fn lemma_first_cover(table: Seq<BindingView>, dir: Direction, p: Seq<u8>, k: int)
    requires
        0 <= k < table.len(),
        covers(table[k].source(dir), p),
    ensures
        exists|i: int| selects(table, dir, p, i),
    decreases k,
{
    if exists|j: int| 0 <= j < k && covers(#[trigger] table[j].source(dir), p) {
        let j = choose|j: int| 0 <= j < k && covers(#[trigger] table[j].source(dir), p);
        lemma_first_cover(table, dir, p, j);
    } else {
        assert(selects(table, dir, p, k));
    }
}

/// The round-trip law. If a guest path translates to a host path, and on the
/// way back the table selects the same binding again, then the way back
/// gives the guest path one started from. The same holds with the two sides
/// exchanged.
pub proof fn lemma_round_trip(table: Seq<BindingView>, dir: Direction, p: Seq<u8>)
    requires
        table_wf(table),
        translation(table, dir, p) is Ok,
        selected(table, dir.reverse(), translation(table, dir, p)->Ok_0) == selected(table, dir, p),
    ensures
        translation(table, dir.reverse(), translation(table, dir, p)->Ok_0) == Ok::<
            Seq<u8>,
            PathError,
        >(p),
{
    lemma_selected_iff_covered(table, dir, p);
    let i = selected(table, dir, p)->Some_0;
    assert(table[i].wf());
    lemma_rebase(p, table[i].source(dir), table[i].target(dir));
}

/// Whether no binding's prefix on the target side of `dir` lies at or below
/// that of another binding.
pub open spec fn targets_apart(table: Seq<BindingView>, dir: Direction) -> bool {
    forall|i: int, j: int|
        0 <= i < table.len() && 0 <= j < table.len() && i != j ==> !covers(
            #[trigger] table[i].target(dir),
            #[trigger] table[j].target(dir),
        )
}

/// Two prefixes that cover the same path lie one below the other.
pub proof fn lemma_covers_nest(a: Seq<u8>, b: Seq<u8>, p: Seq<u8>)
    requires
        is_canonical(a),
        is_canonical(b),
        covers(a, p),
        covers(b, p),
        a.len() <= b.len(),
    ensures
        covers(a, b),
{
    if !is_root(a) {
        if is_root(b) {
            assert(a.len() == 1);
        } else {
            assert(b.subrange(0, a.len() as int) =~= a) by {
                assert forall|k: int| 0 <= k < a.len() implies b[k] == a[k] by {
                    assert(p.subrange(0, a.len() as int)[k] == a[k]);
                    assert(p.subrange(0, b.len() as int)[k] == b[k]);
                }
            }
            if a.len() < b.len() {
                assert(p.subrange(0, b.len() as int)[a.len() as int] == b[a.len() as int]);
            }
        }
    }
}

/// The round-trip law for tables whose target prefixes lie apart: every
/// path that translates comes back unchanged.
pub proof fn lemma_round_trip_apart(table: Seq<BindingView>, dir: Direction, p: Seq<u8>)
    requires
        table_wf(table),
        targets_apart(table, dir),
        translation(table, dir, p) is Ok,
    ensures
        translation(table, dir.reverse(), translation(table, dir, p)->Ok_0) == Ok::<
            Seq<u8>,
            PathError,
        >(p),
{
    lemma_selected_iff_covered(table, dir, p);
    let i = selected(table, dir, p)->Some_0;
    let back = dir.reverse();
    let moved = translation(table, dir, p)->Ok_0;
    assert(table[i].wf());
    lemma_rebase(p, table[i].source(dir), table[i].target(dir));
    assert(table[i].source(back) == table[i].target(dir));
    assert forall|j: int| 0 <= j < i implies !covers(#[trigger] table[j].source(back), moved) by {
        if covers(table[j].source(back), moved) {
            assert(table[j].wf());
            assert(table[j].source(back) == table[j].target(dir));
            if table[j].target(dir).len() <= table[i].target(dir).len() {
                lemma_covers_nest(table[j].target(dir), table[i].target(dir), moved);
            } else {
                lemma_covers_nest(table[i].target(dir), table[j].target(dir), moved);
            }
        }
    }
    assert(selects(table, back, moved, i));
    lemma_selected(table, back, moved, i);
    lemma_round_trip(table, dir, p);
}

/// The ordered table of bindings through which paths are translated.
pub struct BindingTable {
    entries: Vec<Binding>,
}

impl View for BindingTable {
    type V = Seq<BindingView>;

    closed spec fn view(&self) -> Seq<BindingView> {
        Seq::new(self.entries@.len(), |i: int| self.entries@[i]@)
    }
}

impl BindingTable {
    /// Every binding of the table is well formed.
    pub open spec fn wf(&self) -> bool {
        table_wf(self@)
    }

    /// A table without bindings: no path translates.
    pub fn new() -> (table: BindingTable)
        ensures
            table@ == Seq::<BindingView>::empty(),
            table.wf(),
    {
        let table = BindingTable { entries: Vec::new() };
        assert(table@ =~= Seq::<BindingView>::empty());
        table
    }

    /// Number of bindings.
    pub fn len(&self) -> (n: usize)
        ensures
            n == self@.len(),
    {
        self.entries.len()
    }

    /// Adds a binding behind those already there.
    ///
    /// Both prefixes must be canonical paths shorter than `PATH_MAX`;
    /// otherwise the table stays as it is.
    pub fn bind(&mut self, guest: Vec<u8>, host: Vec<u8>, read_only: bool) -> (r: Result<
        (),
        PathError,
    >)
        requires
            old(self).wf(),
        ensures
            final(self).wf(),
            r is Ok <==> (BindingView { guest: guest@, host: host@, read_only }).wf(),
            r is Ok ==> final(self)@ == old(self)@.push(
                BindingView { guest: guest@, host: host@, read_only },
            ),
            r is Err ==> final(self)@ == old(self)@,
            r matches Err(e) ==> e == (if guest.len() >= PATH_MAX || host.len() >= PATH_MAX {
                PathError::TooLong
            } else {
                PathError::NotCanonical
            }),
    {
        if guest.len() >= PATH_MAX || host.len() >= PATH_MAX {
            return Err(PathError::TooLong);
        }
        if !check_canonical(&guest) || !check_canonical(&host) {
            return Err(PathError::NotCanonical);
        }
        let ghost before = self@;
        let ghost added = BindingView { guest: guest@, host: host@, read_only };
        self.entries.push(Binding { guest, host, read_only });
        assert(self@ =~= before.push(added));
        Ok(())
    }

    /// Finds the first binding that covers `p` in the given direction.
    fn select(&self, dir: Direction, p: &Vec<u8>) -> (found: Option<usize>)
        ensures
            match found {
                Some(i) => selected(self@, dir, p@) == Some(i as int) && i < self@.len(),
                None => selected(self@, dir, p@) is None,
            },
    {
        let mut i: usize = 0;
        while i < self.entries.len()
            invariant
                i <= self.entries.len(),
                self@.len() == self.entries.len(),
                forall|j: int| 0 <= j < i ==> !covers(#[trigger] self@[j].source(dir), p@),
            decreases self.entries.len() - i,
        {
            let entry = &self.entries[i];
            let hit = match dir {
                Direction::ToHost => check_covers(&entry.guest, p),
                Direction::ToGuest => check_covers(&entry.host, p),
            };
            assert(self@[i as int] == entry@);
            if hit {
                proof {
                    assert(selects(self@, dir, p@, i as int));
                    lemma_selected(self@, dir, p@, i as int);
                }
                return Some(i);
            }
            i += 1;
        }
        proof {
            lemma_selected_iff_covered(self@, dir, p@);
        }
        None
    }

    /// Whether the binding that translates the guest path `p` is
    /// read-only.
    pub fn is_write_protected(&self, p: &Vec<u8>) -> (yes: bool)
        ensures
            yes == write_protected(self@, p@),
    {
        match self.select(Direction::ToHost, p) {
            None => false,
            Some(i) => {
                assert(self@[i as int] == self.entries@[i as int]@);
                self.entries[i].read_only
            },
        }
    }

    /// Translates `p` in the given direction.
    pub fn translate(&self, dir: Direction, p: &Vec<u8>) -> (r: Result<Vec<u8>, PathError>)
        requires
            self.wf(),
        ensures
            match r {
                Ok(moved) => translation(self@, dir, p@) == Ok::<Seq<u8>, PathError>(moved@),
                Err(e) => translation(self@, dir, p@) == Err::<Seq<u8>, PathError>(e),
            },
    {
        if p.len() >= PATH_MAX {
            return Err(PathError::TooLong);
        }
        if !check_canonical(p) {
            return Err(PathError::NotCanonical);
        }
        match self.select(dir, p) {
            None => Err(PathError::NoBinding),
            Some(i) => {
                let entry = &self.entries[i];
                assert(self@[i as int] == entry@);
                proof {
                    lemma_selected_iff_covered(self@, dir, p@);
                }
                let moved = match dir {
                    Direction::ToHost => move_below(p, &entry.guest, &entry.host),
                    Direction::ToGuest => move_below(p, &entry.host, &entry.guest),
                };
                if moved.len() >= PATH_MAX {
                    Err(PathError::TooLong)
                } else {
                    Ok(moved)
                }
            },
        }
    }

    /// Resolves the path `p` that a tracee names: tidies it and translates
    /// it to the host. Also says whether the binding that translates it is
    /// read-only.
    pub fn resolve(&self, p: &Vec<u8>) -> (r: Result<(Vec<u8>, bool), PathError>)
        requires
            self.wf(),
        ensures
            match r {
                Ok((host, read_only)) => resolution(self@, p@) == Ok::<Seq<u8>, PathError>(host@)
                    && read_only == write_protected(self@, tidied(p@)) && host.len() < PATH_MAX,
                Err(e) => resolution(self@, p@) == Err::<Seq<u8>, PathError>(e),
            },
    {
        let clean = tidy(p);
        match self.to_host(&clean) {
            Err(e) => Err(e),
            Ok(host) => {
                let read_only = self.is_write_protected(&clean);
                Ok((host, read_only))
            },
        }
    }

    /// The host path behind the guest path `p`.
    ///
    /// Fails with `NoBinding` exactly when `p` is a canonical path of
    /// admissible length that no binding covers.
    pub fn to_host(&self, p: &Vec<u8>) -> (r: Result<Vec<u8>, PathError>)
        requires
            self.wf(),
        ensures
            match r {
                Ok(host) => translation(self@, Direction::ToHost, p@) == Ok::<Seq<u8>, PathError>(
                    host@,
                ),
                Err(e) => translation(self@, Direction::ToHost, p@) == Err::<Seq<u8>, PathError>(e),
            },
            r == Err::<Vec<u8>, PathError>(PathError::NoBinding) <==> p.len() < PATH_MAX
                && is_canonical(p@) && !is_covered(self@, Direction::ToHost, p@),
    {
        proof {
            lemma_selected_iff_covered(self@, Direction::ToHost, p@);
        }
        self.translate(Direction::ToHost, p)
    }

    /// The guest path under which the host path `p` is visible.
    pub fn to_guest(&self, p: &Vec<u8>) -> (r: Result<Vec<u8>, PathError>)
        requires
            self.wf(),
        ensures
            match r {
                Ok(guest) => translation(self@, Direction::ToGuest, p@) == Ok::<
                    Seq<u8>,
                    PathError,
                >(guest@),
                Err(e) => translation(self@, Direction::ToGuest, p@) == Err::<Seq<u8>, PathError>(
                    e,
                ),
            },
            r == Err::<Vec<u8>, PathError>(PathError::NoBinding) <==> p.len() < PATH_MAX
                && is_canonical(p@) && !is_covered(self@, Direction::ToGuest, p@),
    {
        proof {
            lemma_selected_iff_covered(self@, Direction::ToGuest, p@);
        }
        self.translate(Direction::ToGuest, p)
    }
}

} // verus!
