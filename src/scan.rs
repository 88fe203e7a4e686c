//! Left-to-right rewriting of a character sequence, and glyph tables.
use vstd::prelude::*;

verus! {

/// A glyph table: (Malayalam key, Latin rendering) pairs, searched in order.
pub type Table = Seq<(Seq<char>, Seq<char>)>;

/// A rewriting step: looks at the unread rest of the text and either
/// consumes `n` characters, emitting `out`, or declines (the first character
/// is then copied unchanged).
pub type Step = spec_fn(Seq<char>) -> Option<(nat, Seq<char>)>;

/// Whether `u` begins with `k`.
pub open spec fn starts(u: Seq<char>, k: Seq<char>) -> bool {
    k.len() <= u.len() && u.take(k.len() as int) == k
}

/// How many characters a step's answer consumes (none when it declines).
pub open spec fn hit_len(r: Option<(nat, Seq<char>)>) -> nat {
    match r {
        Some((n, _)) => n,
        None => 0,
    }
}

/// What a step's answer emits.
pub open spec fn hit_out(r: Option<(nat, Seq<char>)>) -> Seq<char> {
    match r {
        Some((_, o)) => o,
        None => Seq::empty(),
    }
}

/// Whether a step's answer on `u` is a usable match.
pub open spec fn consumes(r: Option<(nat, Seq<char>)>, u: Seq<char>) -> bool {
    r is Some && 1 <= hit_len(r) <= u.len()
}

/// Leftmost, non-overlapping rewriting of `t` by `f`.
pub open spec fn scan(f: Step, t: Seq<char>) -> Seq<char>
    decreases t.len(),
{
    if t.len() == 0 {
        Seq::empty()
    } else if consumes(f(t), t) {
        hit_out(f(t)) + scan(f, t.skip(hit_len(f(t)) as int))
    } else {
        seq![t[0]] + scan(f, t.skip(1))
    }
}

/// One step of `scan`: what is emitted at position `i` and where it resumes.
pub proof fn lemma_scan_unfold(f: Step, t: Seq<char>, i: int)
    requires
        0 <= i < t.len(),
    ensures
        consumes(f(t.skip(i)), t.skip(i)) ==> scan(f, t.skip(i)) == hit_out(f(t.skip(i))) + scan(
            f,
            t.skip(i + hit_len(f(t.skip(i)))),
        ),
        !consumes(f(t.skip(i)), t.skip(i)) ==> scan(f, t.skip(i)) == seq![t[i]] + scan(
            f,
            t.skip(i + 1),
        ),
{
    let u = t.skip(i);
    if consumes(f(u), u) {
        assert(u.skip(hit_len(f(u)) as int) =~= t.skip(i + hit_len(f(u))));
    } else {
        assert(u.skip(1) =~= t.skip(i + 1));
    }
}

/// The Latin rendering of the first entry of `g` whose key is exactly `c`.
pub open spec fn lookup(g: Table, c: char, j: int) -> Option<Seq<char>>
    decreases g.len() - j,
{
    if j < 0 || j >= g.len() {
        None
    } else if g[j].0 == seq![c] {
        Some(g[j].1)
    } else {
        lookup(g, c, j + 1)
    }
}

/// The index of the first entry of `g`, from `j` on, that `u` begins with.
pub open spec fn prefix_entry(g: Table, u: Seq<char>, j: int) -> Option<int>
    decreases g.len() - j,
{
    if j < 0 || j >= g.len() {
        None
    } else if starts(u, g[j].0) {
        Some(j)
    } else {
        prefix_entry(g, u, j + 1)
    }
}

/// Exec form of a glyph table.
pub type ExecTable = Vec<(Vec<char>, Vec<char>)>;

/// The spec form of an exec glyph table.
pub open spec fn table_view(t: Seq<(Vec<char>, Vec<char>)>) -> Table {
    t.map_values(|e: (Vec<char>, Vec<char>)| (e.0@, e.1@))
}

/// Whether `t` holds `k` at position `i`.
pub fn starts_at(t: &Vec<char>, i: usize, k: &Vec<char>) -> (r: bool)
    requires
        i <= t.len(),
    ensures
        r == starts(t@.skip(i as int), k@),
{
    if k.len() > t.len() - i {
        return false;
    }
    let mut j: usize = 0;
    while j < k.len()
        invariant
            j <= k.len(),
            i + k.len() <= t.len(),
            forall|m: int| 0 <= m < j ==> t@[i + m] == k@[m],
        decreases k.len() - j,
    {
        if t[i + j] != k[j] {
            proof {
                assert(t@.skip(i as int).take(k.len() as int)[j as int] != k@[j as int]);
            }
            return false;
        }
        j += 1;
    }
    proof {
        assert(t@.skip(i as int).take(k.len() as int) =~= k@);
    }
    true
}

/// Exec form of `lookup`.
pub fn lookup_exec(g: &ExecTable, c: char) -> (r: Option<&Vec<char>>)
    ensures
        r is Some <==> lookup(table_view(g@), c, 0) is Some,
        r is Some ==> r->0@ == lookup(table_view(g@), c, 0)->0,
{
    let ghost gv = table_view(g@);
    let mut j: usize = 0;
    while j < g.len()
        invariant
            j <= g.len(),
            gv == table_view(g@),
            lookup(gv, c, 0) == lookup(gv, c, j as int),
        decreases g.len() - j,
    {
        let key = &g[j].0;
        if key.len() == 1 && key[0] == c {
            proof {
                assert(gv[j as int].0 =~= seq![c]);
            }
            return Some(&g[j].1);
        }
        proof {
            if gv[j as int].0 == seq![c] {
                assert(gv[j as int].0[0] == c);
            }
        }
        j += 1;
    }
    None
}

/// Exec form of `prefix_entry`.
pub fn prefix_entry_exec(g: &ExecTable, t: &Vec<char>, i: usize) -> (r: Option<usize>)
    requires
        i <= t.len(),
    ensures
        r is Some <==> prefix_entry(table_view(g@), t@.skip(i as int), 0) is Some,
        r is Some ==> r->0 as int == prefix_entry(table_view(g@), t@.skip(i as int), 0)->0,
        r is Some ==> r->0 < g.len(),
{
    let ghost gv = table_view(g@);
    let ghost u = t@.skip(i as int);
    let mut j: usize = 0;
    while j < g.len()
        invariant
            j <= g.len(),
            i <= t.len(),
            gv == table_view(g@),
            u == t@.skip(i as int),
            prefix_entry(gv, u, 0) == prefix_entry(gv, u, j as int),
        decreases g.len() - j,
    {
        if starts_at(t, i, &g[j].0) {
            return Some(j);
        }
        j += 1;
    }
    None
}

} // verus!

verus! {

/// The five glyph tables of the engine.
pub struct GlyphTables {
    pub vowels: Table,
    pub compounds: Table,
    pub consonants: Table,
    pub chillu: Table,
    pub modifiers: Table,
}

/// Appends `s` to `out`.
pub fn push_all(out: &mut Vec<char>, s: &Vec<char>)
    ensures
        final(out)@ == old(out)@ + s@,
{
    let mut j: usize = 0;
    while j < s.len()
        invariant
            j <= s.len(),
            out@ == old(out)@ + s@.take(j as int),
        decreases s.len() - j,
    {
        out.push(s[j]);
        j += 1;
        proof {
            assert(s@.take(j as int) =~= s@.take(j - 1) + seq![s@[j - 1]]);
        }
    }
    proof {
        assert(s@.take(s.len() as int) =~= s@);
    }
}

} // verus!

verus! {

/// Whether every character of `s` satisfies `p`.
pub open spec fn all_chars(p: spec_fn(char) -> bool, s: Seq<char>) -> bool {
    forall|k: int| 0 <= k < s.len() ==> p(#[trigger] s[k])
}

/// A pass that declines at every position leaves the text as it is.
pub proof fn lemma_scan_identity(f: Step, t: Seq<char>)
    requires
        forall|i: int| 0 <= i < t.len() ==> !consumes(f(#[trigger] t.skip(i)), t.skip(i)),
    ensures
        scan(f, t) == t,
    decreases t.len(),
{
    if t.len() > 0 {
        assert(t.skip(0) =~= t);
        let s = t.skip(1);
        assert forall|i: int| 0 <= i < s.len() implies !consumes(
            f(#[trigger] s.skip(i)),
            s.skip(i),
        ) by {
            assert(s.skip(i) =~= t.skip(i + 1));
        }
        lemma_scan_identity(f, s);
        assert(t =~= seq![t[0]] + s);
    }
}

/// A pass whose every match, on a text of characters satisfying `p`, emits
/// only such characters, keeps a text of such characters so.
pub proof fn lemma_scan_keeps(f: Step, p: spec_fn(char) -> bool, t: Seq<char>)
    requires
        forall|u: Seq<char>|
            all_chars(p, u) && consumes(f(u), u) ==> all_chars(p, #[trigger] hit_out(f(u))),
        all_chars(p, t),
    ensures
        all_chars(p, scan(f, t)),
    decreases t.len(),
{
    if t.len() > 0 {
        let n: int = if consumes(f(t), t) {
            hit_len(f(t)) as int
        } else {
            1
        };
        let s = t.skip(n);
        assert(all_chars(p, s)) by {
            assert forall|k: int| 0 <= k < s.len() implies p(#[trigger] s[k]) by {
                assert(s[k] == t[k + n]);
            }
        }
        lemma_scan_keeps(f, p, s);
        let head = if consumes(f(t), t) {
            hit_out(f(t))
        } else {
            seq![t[0]]
        };
        assert(all_chars(p, head));
        let r = head + scan(f, s);
        assert(scan(f, t) == r);
        assert forall|k: int| 0 <= k < r.len() implies p(#[trigger] r[k]) by {
            if k >= head.len() {
                assert(r[k] == scan(f, s)[k - head.len()]);
            }
        }
    }
}

} // verus!

verus! {

/// Whether every virama of `t`, past its first character, follows a
/// character satisfying `ok`.
pub open spec fn attached(ok: spec_fn(char) -> bool, t: Seq<char>) -> bool {
    forall|j: int| 1 <= j < t.len() && #[trigger] t[j] == crate::glyphs::VIRAMA ==> ok(t[j - 1])
}

/// Whether `s` holds no virama.
pub open spec fn no_virama(s: Seq<char>) -> bool {
    forall|k: int| 0 <= k < s.len() ==> #[trigger] s[k] != crate::glyphs::VIRAMA
}

/// A pass carries `attached(ok_in, ..)` over to `attached(ok_out, ..)` when
/// its matches emit something and no virama, a match followed by a virama
/// emits a last character satisfying `ok_out`, and a character it copies
/// before a virama satisfies `ok_out`; `pre` holds of every suffix read.
pub proof fn lemma_scan_attached(
    f: Step,
    pre: spec_fn(Seq<char>) -> bool,
    ok_in: spec_fn(char) -> bool,
    ok_out: spec_fn(char) -> bool,
    t: Seq<char>,
)
    requires
        forall|i: int| 0 <= i <= t.len() ==> #[trigger] pre(t.skip(i)),
        attached(ok_in, t),
        forall|u: Seq<char>|
            pre(u) && attached(ok_in, u) && consumes(#[trigger] f(u), u) ==> hit_out(f(u)).len()
                > 0 && no_virama(hit_out(f(u))),
        forall|u: Seq<char>|
            pre(u) && attached(ok_in, u) && consumes(#[trigger] f(u), u) && hit_len(f(u))
                < u.len() && u[hit_len(f(u)) as int] == crate::glyphs::VIRAMA ==> ok_out(
                hit_out(f(u)).last(),
            ),
        forall|u: Seq<char>|
            pre(u) && attached(ok_in, u) && !consumes(#[trigger] f(u), u) && u.len() >= 2 && u[1]
                == crate::glyphs::VIRAMA ==> ok_out(u[0]),
    ensures
        attached(ok_out, scan(f, t)),
        scan(f, t).len() > 0 && scan(f, t)[0] == crate::glyphs::VIRAMA ==> t.len() > 0 && t[0]
            == crate::glyphs::VIRAMA,
    decreases t.len(),
{
    let v = crate::glyphs::VIRAMA;
    if t.len() > 0 {
        assert(t.skip(0) =~= t);
        assert(pre(t.skip(0)));
        let m = consumes(f(t), t);
        let n: int = if m {
            hit_len(f(t)) as int
        } else {
            1
        };
        let head = if m {
            hit_out(f(t))
        } else {
            seq![t[0]]
        };
        let rest = t.skip(n);
        assert forall|i: int| 0 <= i <= rest.len() implies #[trigger] pre(rest.skip(i)) by {
            assert(rest.skip(i) =~= t.skip(n + i));
            assert(pre(t.skip(n + i)));
        }
        assert forall|j: int| 1 <= j < rest.len() && #[trigger] rest[j] == v implies ok_in(
            rest[j - 1],
        ) by {
            assert(rest[j] == t[n + j]);
            assert(rest[j - 1] == t[n + j - 1]);
        }
        lemma_scan_attached(f, pre, ok_in, ok_out, rest);
        let r = scan(f, rest);
        let out = head + r;
        assert(scan(f, t) == out);
        assert forall|j: int| 1 <= j < out.len() && #[trigger] out[j] == v implies ok_out(
            out[j - 1],
        ) by {
            if j < head.len() {
                assert(m);
                assert(head[j] != v);
            } else if j == head.len() {
                assert(out[j] == r[0]);
                assert(rest[0] == v);
                assert(t[n] == v);
                assert(out[j - 1] == head.last());
            } else {
                assert(out[j] == r[j - head.len()]);
                assert(out[j - 1] == r[j - 1 - head.len()]);
            }
        }
        if out.len() > 0 && out[0] == v {
            if m {
                assert(head[0] != v);
            }
        }
    }
}

} // verus!

verus! {

/// Where every match emits an ASCII character first, a run of non-ASCII
/// characters at the start of the output was copied from the input.
pub proof fn lemma_scan_copies(f: Step, s: Seq<char>, m: int)
    requires
        forall|u: Seq<char>|
            consumes(#[trigger] f(u), u) ==> hit_out(f(u)).len() > 0 && hit_out(f(u))[0] as u32
                <= 0x7F,
        0 <= m <= scan(f, s).len(),
        forall|k: int| 0 <= k < m ==> (#[trigger] scan(f, s)[k]) as u32 > 0x7F,
    ensures
        m <= s.len(),
        forall|k: int| 0 <= k < m ==> #[trigger] s[k] == scan(f, s)[k],
    decreases s.len(),
{
    if m > 0 {
        assert(s.len() > 0);
        assert(scan(f, s)[0] as u32 > 0x7F);
        assert(!consumes(f(s), s));
        let r = scan(f, s.skip(1));
        assert(scan(f, s) == seq![s[0]] + r);
        assert forall|k: int| 0 <= k < m - 1 implies (#[trigger] r[k]) as u32 > 0x7F by {
            assert(r[k] == scan(f, s)[k + 1]);
        }
        lemma_scan_copies(f, s.skip(1), m - 1);
        assert forall|k: int| 0 <= k < m implies #[trigger] s[k] == scan(f, s)[k] by {
            if k > 0 {
                assert(s.skip(1)[k - 1] == r[k - 1]);
            }
        }
    }
}

} // verus!
