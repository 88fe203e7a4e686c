//! What holds of every romanization.
use vstd::prelude::*;
use crate::glyphs::{is_malayalam, tables_wf, CharacterMap, U_SIGN, VIRAMA, ZWNJ};
use crate::rules::{clusters_from, fuse_at, render, rewrite, rule_at, step, Rule};
use crate::scan::{
    all_chars, attached, consumes, hit_len, hit_out, lemma_scan_attached, lemma_scan_copies,
    lemma_scan_identity, lemma_scan_keeps, lookup, no_virama, prefix_entry, scan, starts,
    GlyphTables, Table,
};
use crate::sentence::sentence_case;
use crate::text::without_zwnj;

verus! {

proof fn lemma_lookup(g: Table, c: char, j: int)
    ensures
        lookup(g, c, j) is Some ==> exists|q: int|
            0 <= q < g.len() && #[trigger] g[q].0 == seq![c] && g[q].1 == lookup(g, c, j)->0,
    decreases g.len() - j,
{
    if 0 <= j < g.len() && g[j].0 != seq![c] {
        lemma_lookup(g, c, j + 1);
    }
}

proof fn lemma_prefix(g: Table, u: Seq<char>, j: int)
    ensures
        prefix_entry(g, u, j) is Some ==> 0 <= prefix_entry(g, u, j)->0 < g.len() && starts(
            u,
            g[prefix_entry(g, u, j)->0].0,
        ),
    decreases g.len() - j,
{
    if 0 <= j < g.len() && !starts(u, g[j].0) {
        lemma_prefix(g, u, j + 1);
    }
}

proof fn lemma_fuse(g: Table, m: Table, u: Seq<char>, j: int)
    ensures
        fuse_at(g, m, u, j) is Some ==> exists|a: int, b: int|
            0 <= a < g.len() && 0 <= b < m.len() && starts(u, #[trigger] g[a].0) && starts(
                u.skip(g[a].0.len() as int),
                #[trigger] m[b].0,
            ) && hit_out(fuse_at(g, m, u, j)) == g[a].1 + m[b].1 && hit_len(fuse_at(g, m, u, j))
                == g[a].0.len() + m[b].0.len() && prefix_entry(m, u.skip(g[a].0.len() as int), 0)
                == Some(b),
    decreases g.len() - j,
{
    if 0 <= j < g.len() {
        if starts(u, g[j].0) && prefix_entry(m, u.skip(g[j].0.len() as int), 0) is Some {
            let q = prefix_entry(m, u.skip(g[j].0.len() as int), 0)->0;
            lemma_prefix(m, u.skip(g[j].0.len() as int), 0);
            assert(starts(u, g[j].0) && starts(u.skip(g[j].0.len() as int), m[q].0));
        } else {
            lemma_fuse(g, m, u, j + 1);
        }
    }
}

/// A key that the text starts with gives the text its first character.
proof fn lemma_starts_first(u: Seq<char>, k: Seq<char>)
    requires
        starts(u, k),
        k.len() > 0,
    ensures
        u[0] == k[0],
{
    assert(u.take(k.len() as int)[0] == u[0]);
}

/// Every rule matches only where the text starts with a Malayalam character.
proof fn lemma_rule_malayalam(g: GlyphTables, rule: Rule, u: Seq<char>)
    requires
        tables_wf(g),
        rule_at(g, rule, u) is Some,
    ensures
        u.len() > 0 && is_malayalam(u[0]),
{
    match rule {
        Rule::FuseCompounds | Rule::FuseVowels | Rule::FuseConsonants => {
            let t = match rule {
                Rule::FuseCompounds => g.compounds,
                Rule::FuseVowels => g.vowels,
                _ => g.consonants,
            };
            lemma_fuse(t, g.modifiers, u, 0);
            let (a, b) = choose|a: int, b: int|
                0 <= a < t.len() && 0 <= b < g.modifiers.len() && starts(u, #[trigger] t[a].0)
                    && starts(u.skip(t[a].0.len() as int), #[trigger] g.modifiers[b].0) && hit_out(
                    fuse_at(t, g.modifiers, u, 0),
                ) == t[a].1 + g.modifiers[b].1 && hit_len(fuse_at(t, g.modifiers, u, 0))
                    == t[a].0.len() + g.modifiers[b].0.len();
            lemma_starts_first(u, t[a].0);
            assert(is_malayalam(t[a].0[0]));
        },
        Rule::GluedCluster(j) | Rule::MuteCluster(j) | Rule::BareCluster(j) => {
            let k = g.compounds[j as int].0;
            lemma_starts_first(u, k);
            assert(is_malayalam(g.compounds[j as int].0[0]));
        },
        Rule::Alive | Rule::Glued | Rule::MuteFinal => {
            lemma_lookup(g.consonants, u[0], 0);
            let q = choose|q: int|
                0 <= q < g.consonants.len() && #[trigger] g.consonants[q].0 == seq![u[0]]
                    && g.consonants[q].1 == lookup(g.consonants, u[0], 0)->0;
            assert(is_malayalam(g.consonants[q].0[0]));
        },
        Rule::Flush => {
            if lookup(g.consonants, u[0], 0) is Some {
                lemma_lookup(g.consonants, u[0], 0);
                let q = choose|q: int|
                    0 <= q < g.consonants.len() && #[trigger] g.consonants[q].0 == seq![u[0]]
                        && g.consonants[q].1 == lookup(g.consonants, u[0], 0)->0;
                assert(is_malayalam(g.consonants[q].0[0]));
            } else if lookup(g.vowels, u[0], 0) is Some {
                lemma_lookup(g.vowels, u[0], 0);
                let q = choose|q: int|
                    0 <= q < g.vowels.len() && #[trigger] g.vowels[q].0 == seq![u[0]]
                        && g.vowels[q].1 == lookup(g.vowels, u[0], 0)->0;
                assert(is_malayalam(g.vowels[q].0[0]));
            } else if lookup(g.chillu, u[0], 0) is Some {
                lemma_lookup(g.chillu, u[0], 0);
                let q = choose|q: int|
                    0 <= q < g.chillu.len() && #[trigger] g.chillu[q].0 == seq![u[0]]
                        && g.chillu[q].1 == lookup(g.chillu, u[0], 0)->0;
                assert(is_malayalam(g.chillu[q].0[0]));
            }
        },
        Rule::Stray => {
            lemma_prefix(g.modifiers, u, 0);
            let q = prefix_entry(g.modifiers, u, 0)->0;
            lemma_starts_first(u, g.modifiers[q].0);
            assert(is_malayalam(g.modifiers[q].0[0]));
        },
    }
}

/// Whether `t` holds no Malayalam character.
pub open spec fn plain(t: Seq<char>) -> bool {
    forall|k: int| 0 <= k < t.len() ==> !is_malayalam(#[trigger] t[k])
}

/// Every pass leaves a text without Malayalam characters as it is.
proof fn lemma_pass_plain(g: GlyphTables, rule: Rule, t: Seq<char>)
    requires
        tables_wf(g),
        plain(t),
    ensures
        scan(step(g, rule), t) == t,
{
    assert forall|i: int| 0 <= i < t.len() implies !consumes(
        step(g, rule)(#[trigger] t.skip(i)),
        t.skip(i),
    ) by {
        if rule_at(g, rule, t.skip(i)) is Some {
            lemma_rule_malayalam(g, rule, t.skip(i));
        }
    }
    lemma_scan_identity(step(g, rule), t);
}

/// The compound rules leave a text where no compound occurs as it is.
proof fn lemma_clusters_none(g: GlyphTables, j: int, t: Seq<char>)
    requires
        tables_wf(g),
        forall|i: int, q: int|
            0 <= i < t.len() && 0 <= q < g.compounds.len() ==> !starts(
                #[trigger] t.skip(i),
                #[trigger] g.compounds[q].0,
            ),
    ensures
        clusters_from(g, j, t) == t,
    decreases g.compounds.len() - j,
{
    if 0 <= j < g.compounds.len() {
        let js = j as usize;
        assert forall|i: int| 0 <= i < t.len() implies !consumes(
            step(g, Rule::GluedCluster(js))(#[trigger] t.skip(i)),
            t.skip(i),
        ) && !consumes(step(g, Rule::MuteCluster(js))(t.skip(i)), t.skip(i)) && !consumes(
            step(g, Rule::BareCluster(js))(t.skip(i)),
            t.skip(i),
        ) by {
            assert(!starts(t.skip(i), g.compounds[j].0));
        }
        lemma_scan_identity(step(g, Rule::GluedCluster(js)), t);
        lemma_scan_identity(step(g, Rule::MuteCluster(js)), t);
        lemma_scan_identity(step(g, Rule::BareCluster(js)), t);
        lemma_clusters_none(g, j + 1, t);
    }
}

proof fn lemma_clusters_plain(g: GlyphTables, t: Seq<char>)
    requires
        tables_wf(g),
        plain(t),
    ensures
        clusters_from(g, 0, t) == t,
{
    assert forall|i: int, q: int|
        0 <= i < t.len() && 0 <= q < g.compounds.len() implies !starts(
        #[trigger] t.skip(i),
        #[trigger] g.compounds[q].0,
    ) by {
        if starts(t.skip(i), g.compounds[q].0) {
            lemma_starts_first(t.skip(i), g.compounds[q].0);
            assert(is_malayalam(g.compounds[q].0[0]));
        }
    }
    lemma_clusters_none(g, 0, t);
}

/// The passes after the compound rules leave a text without Malayalam
/// characters as it is.
proof fn lemma_tail_plain(g: GlyphTables, t: Seq<char>)
    requires
        tables_wf(g),
        plain(t),
    ensures
        scan(step(g, Rule::Stray), scan(step(g, Rule::Flush), scan(step(g, Rule::MuteFinal), scan(step(g, Rule::Glued), t)))) == t,
{
    lemma_pass_plain(g, Rule::Glued, t);
    lemma_pass_plain(g, Rule::MuteFinal, t);
    lemma_pass_plain(g, Rule::Flush, t);
    lemma_pass_plain(g, Rule::Stray, t);
}

proof fn lemma_without_zwnj_keeps(t: Seq<char>)
    requires
        forall|k: int| 0 <= k < t.len() ==> #[trigger] t[k] != ZWNJ,
    ensures
        without_zwnj(t) == t,
    decreases t.len(),
{
    if t.len() > 0 {
        lemma_without_zwnj_keeps(t.skip(1));
        assert(t =~= seq![t[0]] + t.skip(1));
    }
}

/// Text without Malayalam characters and without zero-width non-joiners
/// comes out unchanged when not capitalized.
pub proof fn lemma_non_malayalam_unchanged(cm: &CharacterMap, t: Seq<char>)
    requires
        tables_wf(cm@),
        forall|k: int| 0 <= k < t.len() ==> !is_malayalam(#[trigger] t[k]) && t[k] != ZWNJ,
    ensures
        render(cm@, t, false) == t,
{
    let g = cm@;
    lemma_without_zwnj_keeps(t);
    lemma_pass_plain(g, Rule::FuseCompounds, t);
    lemma_pass_plain(g, Rule::FuseVowels, t);
    lemma_pass_plain(g, Rule::FuseConsonants, t);
    lemma_clusters_plain(g, t);
    lemma_pass_plain(g, Rule::Alive, t);
    lemma_tail_plain(g, t);
}

/// Capitalization works on the uncapitalized romanization alone: each
/// sentence is trimmed and its first character upper-cased, and no other
/// character changes.
pub proof fn lemma_capitalization_sentence_local(cm: &CharacterMap, t: Seq<char>)
    ensures
        render(cm@, t, true) == sentence_case(render(cm@, t, false)),
{
}

/// Whether `p` holds of every ASCII character.
pub open spec fn holds_of_ascii(p: spec_fn(char) -> bool) -> bool {
    forall|c: char| (c as u32) <= 0x7F ==> #[trigger] p(c)
}

proof fn lemma_latin_keeps(g: Table, q: int, p: spec_fn(char) -> bool)
    requires
        crate::glyphs::latin_ascii(g),
        0 <= q < g.len(),
        holds_of_ascii(p),
    ensures
        all_chars(p, g[q].1),
{
    assert forall|k: int| 0 <= k < g[q].1.len() implies p(#[trigger] g[q].1[k]) by {
        assert((g[q].1[k]) as u32 <= 0x7F);
    }
}

proof fn lemma_lookup_keeps(g: Table, c: char, p: spec_fn(char) -> bool)
    requires
        crate::glyphs::latin_ascii(g),
        lookup(g, c, 0) is Some,
        holds_of_ascii(p),
    ensures
        all_chars(p, lookup(g, c, 0)->0),
{
    lemma_lookup(g, c, 0);
    let q = choose|q: int|
        0 <= q < g.len() && #[trigger] g[q].0 == seq![c] && g[q].1 == lookup(g, c, 0)->0;
    lemma_latin_keeps(g, q, p);
}

proof fn lemma_concat_keeps(a: Seq<char>, b: Seq<char>, p: spec_fn(char) -> bool)
    requires
        all_chars(p, a),
        all_chars(p, b),
    ensures
        all_chars(p, a + b),
{
    assert forall|k: int| 0 <= k < (a + b).len() implies p(#[trigger] (a + b)[k]) by {
        if k >= a.len() {
            assert((a + b)[k] == b[k - a.len()]);
        }
    }
}

/// The character that a glued compound carries over satisfies `p`.
pub open spec fn captured_keeps(g: GlyphTables, rule: Rule, u: Seq<char>, p: spec_fn(char) -> bool) -> bool {
    match rule {
        Rule::GluedCluster(j) => rule_at(g, rule, u) is Some ==> p(
            u[g.compounds[j as int].0.len() + 1int],
        ),
        _ => true,
    }
}

/// What a rule emits is ASCII or taken from the text it reads.
proof fn lemma_rule_keeps(g: GlyphTables, rule: Rule, u: Seq<char>, p: spec_fn(char) -> bool)
    requires
        tables_wf(g),
        holds_of_ascii(p),
        captured_keeps(g, rule, u, p),
        rule_at(g, rule, u) is Some,
    ensures
        all_chars(p, hit_out(rule_at(g, rule, u))),
{
    assert(p('a') && p('u') && p('m'));
    match rule {
        Rule::FuseCompounds | Rule::FuseVowels | Rule::FuseConsonants => {
            let t = match rule {
                Rule::FuseCompounds => g.compounds,
                Rule::FuseVowels => g.vowels,
                _ => g.consonants,
            };
            lemma_fuse(t, g.modifiers, u, 0);
            let (a, b) = choose|a: int, b: int|
                0 <= a < t.len() && 0 <= b < g.modifiers.len() && starts(u, #[trigger] t[a].0)
                    && starts(u.skip(t[a].0.len() as int), #[trigger] g.modifiers[b].0) && hit_out(
                    fuse_at(t, g.modifiers, u, 0),
                ) == t[a].1 + g.modifiers[b].1 && hit_len(fuse_at(t, g.modifiers, u, 0))
                    == t[a].0.len() + g.modifiers[b].0.len();
            lemma_latin_keeps(t, a, p);
            lemma_latin_keeps(g.modifiers, b, p);
            lemma_concat_keeps(t[a].1, g.modifiers[b].1, p);
        },
        Rule::GluedCluster(j) => {
            let k = g.compounds[j as int].0;
            lemma_latin_keeps(g.compounds, j as int, p);
            assert(p(u[k.len() + 1int]));
            lemma_concat_keeps(g.compounds[j as int].1, seq![u[k.len() + 1int]], p);
        },
        Rule::MuteCluster(j) => {
            lemma_latin_keeps(g.compounds, j as int, p);
            lemma_concat_keeps(g.compounds[j as int].1, seq!['u'], p);
        },
        Rule::BareCluster(j) => {
            lemma_latin_keeps(g.compounds, j as int, p);
            lemma_concat_keeps(g.compounds[j as int].1, seq!['a'], p);
        },
        Rule::Alive => {
            lemma_lookup_keeps(g.consonants, u[0], p);
            lemma_concat_keeps(lookup(g.consonants, u[0], 0)->0, seq!['a'], p);
        },
        Rule::Glued => {
            lemma_lookup_keeps(g.consonants, u[0], p);
        },
        Rule::MuteFinal => {
            lemma_lookup_keeps(g.consonants, u[0], p);
            lemma_concat_keeps(lookup(g.consonants, u[0], 0)->0, seq!['u'], p);
        },
        Rule::Flush => {
            if lookup(g.consonants, u[0], 0) is Some {
                lemma_lookup_keeps(g.consonants, u[0], p);
            } else if lookup(g.vowels, u[0], 0) is Some {
                lemma_lookup_keeps(g.vowels, u[0], p);
            } else if lookup(g.chillu, u[0], 0) is Some {
                lemma_lookup_keeps(g.chillu, u[0], p);
            }
        },
        Rule::Stray => {
            lemma_prefix(g.modifiers, u, 0);
            lemma_latin_keeps(g.modifiers, prefix_entry(g.modifiers, u, 0)->0, p);
        },
    }
}

/// Every pass keeps a property that holds of ASCII and of the text.
proof fn lemma_pass_keeps(g: GlyphTables, rule: Rule, t: Seq<char>, p: spec_fn(char) -> bool)
    requires
        tables_wf(g),
        holds_of_ascii(p),
        all_chars(p, t),
    ensures
        all_chars(p, scan(step(g, rule), t)),
{
    let f = step(g, rule);
    assert forall|u: Seq<char>| all_chars(p, u) && consumes(f(u), u) implies all_chars(
        p,
        #[trigger] hit_out(f(u)),
    ) by {
        match rule {
            Rule::GluedCluster(j) => {
                if rule_at(g, rule, u) is Some {
                    assert(p(u[g.compounds[j as int].0.len() + 1int]));
                }
            },
            _ => {},
        }
        lemma_rule_keeps(g, rule, u, p);
    }
    lemma_scan_keeps(f, p, t);
}

proof fn lemma_clusters_keep(g: GlyphTables, j: int, t: Seq<char>, p: spec_fn(char) -> bool)
    requires
        tables_wf(g),
        holds_of_ascii(p),
        all_chars(p, t),
    ensures
        all_chars(p, clusters_from(g, j, t)),
    decreases g.compounds.len() - j,
{
    if 0 <= j < g.compounds.len() {
        let js = j as usize;
        let t1 = scan(step(g, Rule::GluedCluster(js)), t);
        let t2 = scan(step(g, Rule::MuteCluster(js)), t1);
        let t3 = scan(step(g, Rule::BareCluster(js)), t2);
        lemma_pass_keeps(g, Rule::GluedCluster(js), t, p);
        lemma_pass_keeps(g, Rule::MuteCluster(js), t1, p);
        lemma_pass_keeps(g, Rule::BareCluster(js), t2, p);
        lemma_clusters_keep(g, j + 1, t3, p);
    }
}

/// Every pass of the romanization keeps a property that holds of ASCII and of
/// the text it starts from.
proof fn lemma_rewrite_keeps(g: GlyphTables, t: Seq<char>, p: spec_fn(char) -> bool)
    requires
        tables_wf(g),
        holds_of_ascii(p),
        all_chars(p, without_zwnj(t)),
    ensures
        all_chars(p, rewrite(g, t)),
{
    let s0 = without_zwnj(t);
    let s1 = scan(step(g, Rule::FuseCompounds), s0);
    let s2 = scan(step(g, Rule::FuseVowels), s1);
    let s3 = scan(step(g, Rule::FuseConsonants), s2);
    let s4 = clusters_from(g, 0, s3);
    let s5 = scan(step(g, Rule::Alive), s4);
    let s6 = scan(step(g, Rule::Glued), s5);
    let s7 = scan(step(g, Rule::MuteFinal), s6);
    let s8 = scan(step(g, Rule::Flush), s7);
    lemma_pass_keeps(g, Rule::FuseCompounds, s0, p);
    lemma_pass_keeps(g, Rule::FuseVowels, s1, p);
    lemma_pass_keeps(g, Rule::FuseConsonants, s2, p);
    lemma_clusters_keep(g, 0, s3, p);
    lemma_pass_keeps(g, Rule::Alive, s4, p);
    lemma_pass_keeps(g, Rule::Glued, s5, p);
    lemma_pass_keeps(g, Rule::MuteFinal, s6, p);
    lemma_pass_keeps(g, Rule::Flush, s7, p);
    lemma_pass_keeps(g, Rule::Stray, s8, p);
}

proof fn lemma_without_zwnj_none(t: Seq<char>)
    ensures
        forall|k: int| 0 <= k < without_zwnj(t).len() ==> #[trigger] without_zwnj(t)[k] != ZWNJ,
    decreases t.len(),
{
    if t.len() > 0 {
        lemma_without_zwnj_none(t.skip(1));
        let r = without_zwnj(t.skip(1));
        if t[0] != ZWNJ {
            assert forall|k: int| 0 <= k < (seq![t[0]] + r).len() implies #[trigger] (seq![t[0]]
                + r)[k] != ZWNJ by {
                if k > 0 {
                    assert((seq![t[0]] + r)[k] == r[k - 1]);
                }
            }
        }
    }
}

/// The uncapitalized romanization never holds a zero-width non-joiner.
pub proof fn lemma_no_zwnj_emitted(cm: &CharacterMap, t: Seq<char>)
    requires
        tables_wf(cm@),
    ensures
        forall|k: int| 0 <= k < render(cm@, t, false).len() ==> #[trigger] render(cm@, t, false)[k]
            != ZWNJ,
{
    let p = |c: char| c != ZWNJ;
    lemma_without_zwnj_none(t);
    assert(all_chars(p, without_zwnj(t)));
    lemma_rewrite_keeps(cm@, t, p);
}

/// Fusion never starts at a consonant that a virama follows, when what
/// follows the virama is not Malayalam.
proof fn lemma_fuse_before_virama(g: GlyphTables, t: Table, u: Seq<char>)
    requires
        tables_wf(g),
        crate::glyphs::keys_malayalam(t),
        crate::glyphs::keys_start_within(t, 0x0D05, 0x0D39),
        u.len() >= 2,
        u[1] == VIRAMA,
        forall|k: int| 2 <= k < u.len() ==> !is_malayalam(#[trigger] u[k]),
    ensures
        fuse_at(t, g.modifiers, u, 0) is None,
{
    lemma_fuse(t, g.modifiers, u, 0);
    if fuse_at(t, g.modifiers, u, 0) is Some {
        let (a, b) = choose|a: int, b: int|
            0 <= a < t.len() && 0 <= b < g.modifiers.len() && starts(u, #[trigger] t[a].0)
                && starts(u.skip(t[a].0.len() as int), #[trigger] g.modifiers[b].0) && hit_out(
                fuse_at(t, g.modifiers, u, 0),
            ) == t[a].1 + g.modifiers[b].1 && hit_len(fuse_at(t, g.modifiers, u, 0))
                == t[a].0.len() + g.modifiers[b].0.len();
        let k = t[a].0;
        let m = g.modifiers[b].0;
        let v = u.skip(k.len() as int);
        assert(k.len() > 0);
        assert(m.len() > 0 && is_malayalam(m[0]));
        lemma_starts_first(v, m);
        if k.len() == 1 {
            assert(v[0] == u[1]);
        } else if k.len() == 2 {
            assert(v[0] == u[2]);
        } else {
            assert(is_malayalam(k[2]));
            assert(u.take(k.len() as int)[2] == u[2]);
        }
    }
}

/// Fusion never starts at a virama.
proof fn lemma_fuse_at_virama(g: GlyphTables, t: Table, u: Seq<char>)
    requires
        tables_wf(g),
        crate::glyphs::keys_start_within(t, 0x0D05, 0x0D39),
        u.len() >= 1,
        u[0] == VIRAMA,
    ensures
        fuse_at(t, g.modifiers, u, 0) is None,
{
    lemma_fuse(t, g.modifiers, u, 0);
    if fuse_at(t, g.modifiers, u, 0) is Some {
        let (a, b) = choose|a: int, b: int|
            0 <= a < t.len() && 0 <= b < g.modifiers.len() && starts(u, #[trigger] t[a].0)
                && starts(u.skip(t[a].0.len() as int), #[trigger] g.modifiers[b].0) && hit_out(
                fuse_at(t, g.modifiers, u, 0),
            ) == t[a].1 + g.modifiers[b].1 && hit_len(fuse_at(t, g.modifiers, u, 0))
                == t[a].0.len() + g.modifiers[b].0.len();
        lemma_starts_first(u, t[a].0);
    }
}

/// The virama is no consonant.
proof fn lemma_virama_not_consonant(g: GlyphTables)
    requires
        tables_wf(g),
    ensures
        lookup(g.consonants, VIRAMA, 0) is None,
{
    lemma_lookup(g.consonants, VIRAMA, 0);
    if lookup(g.consonants, VIRAMA, 0) is Some {
        let q = choose|q: int|
            0 <= q < g.consonants.len() && #[trigger] g.consonants[q].0 == seq![VIRAMA]
                && g.consonants[q].1 == lookup(g.consonants, VIRAMA, 0)->0;
        assert(g.consonants[q].0.len() > 0);
        assert(g.consonants[q].0[0] == VIRAMA);
    }
}

/// Whether `t` is a consonant, a virama, and at most one character that is
/// neither Malayalam nor a zero-width non-joiner.
pub open spec fn muted_pair(g: GlyphTables, t: Seq<char>) -> bool {
    &&& 2 <= t.len() <= 3
    &&& lookup(g.consonants, t[0], 0) is Some
    &&& t[1] == VIRAMA
    &&& t.len() == 3 ==> !is_malayalam(t[2]) && t[2] != ZWNJ
}

/// Up to the rule for consonants left alive, a muted consonant is untouched.
proof fn lemma_muted_pair_early(g: GlyphTables, t: Seq<char>)
    requires
        tables_wf(g),
        muted_pair(g, t),
    ensures
        scan(
            step(g, Rule::Alive),
            clusters_from(
                g,
                0,
                scan(
                    step(g, Rule::FuseConsonants),
                    scan(step(g, Rule::FuseVowels), scan(step(g, Rule::FuseCompounds), without_zwnj(t))),
                ),
            ),
        ) == t,
{
    lemma_lookup(g.consonants, t[0], 0);
    let q = choose|q: int|
        0 <= q < g.consonants.len() && #[trigger] g.consonants[q].0 == seq![t[0]]
            && g.consonants[q].1 == lookup(g.consonants, t[0], 0)->0;
    assert(is_malayalam(g.consonants[q].0[0]));
    assert(t[0] != ZWNJ);
    lemma_without_zwnj_keeps(t);
    assert(t.skip(0) =~= t);
    assert(t.skip(1)[0] == VIRAMA);
    assert forall|r: Rule|
        r == Rule::FuseCompounds || r == Rule::FuseVowels || r == Rule::FuseConsonants || r
            == Rule::Alive implies #[trigger] scan(step(g, r), t) == t by {
        assert forall|i: int| 0 <= i < t.len() implies !consumes(
            step(g, r)(#[trigger] t.skip(i)),
            t.skip(i),
        ) by {
            let u = t.skip(i);
            if i == 0 {
                assert(forall|k: int| 2 <= k < u.len() ==> u[k] == t[k]);
                if r == Rule::FuseCompounds {
                    lemma_fuse_before_virama(g, g.compounds, u);
                } else if r == Rule::FuseVowels {
                    lemma_fuse_before_virama(g, g.vowels, u);
                } else if r == Rule::FuseConsonants {
                    lemma_fuse_before_virama(g, g.consonants, u);
                }
            } else if i == 1 {
                lemma_virama_not_consonant(g);
                if r == Rule::FuseCompounds {
                    lemma_fuse_at_virama(g, g.compounds, u);
                } else if r == Rule::FuseVowels {
                    lemma_fuse_at_virama(g, g.vowels, u);
                } else if r == Rule::FuseConsonants {
                    lemma_fuse_at_virama(g, g.consonants, u);
                }
            } else {
                assert(u[0] == t[2]);
                if rule_at(g, r, u) is Some {
                    lemma_rule_malayalam(g, r, u);
                }
            }
        }
        lemma_scan_identity(step(g, r), t);
    }
    assert(scan(step(g, Rule::FuseCompounds), t) == t);
    assert(scan(step(g, Rule::FuseVowels), t) == t);
    assert(scan(step(g, Rule::FuseConsonants), t) == t);
    assert forall|i: int, c: int|
        0 <= i < t.len() && 0 <= c < g.compounds.len() implies !starts(
        #[trigger] t.skip(i),
        #[trigger] g.compounds[c].0,
    ) by {
        let k = g.compounds[c].0;
        if starts(t.skip(i), k) {
            lemma_starts_first(t.skip(i), k);
            assert(k.len() >= 3);
            assert(is_malayalam(k[2]));
            assert(t.skip(i).take(k.len() as int)[2] == t[i + 2]);
        }
    }
    lemma_clusters_none(g, 0, t);
    assert(scan(step(g, Rule::Alive), t) == t);
}

/// Whether every character of `s` is ASCII.
pub open spec fn ascii(s: Seq<char>) -> bool {
    forall|k: int| 0 <= k < s.len() ==> (#[trigger] s[k]) as u32 <= 0x7F
}

proof fn lemma_consonant_ascii(g: GlyphTables, c: char)
    requires
        tables_wf(g),
        lookup(g.consonants, c, 0) is Some,
    ensures
        ascii(lookup(g.consonants, c, 0)->0),
{
    let p = |x: char| (x as u32) <= 0x7F;
    lemma_lookup_keeps(g.consonants, c, p);
}

/// A consonant with a virama at the end of the text is rendered with a
/// closing "u".
pub proof fn lemma_mute_at_end(cm: &CharacterMap, c: char)
    requires
        tables_wf(cm@),
        lookup(cm@.consonants, c, 0) is Some,
    ensures
        render(cm@, seq![c, VIRAMA], false) == lookup(cm@.consonants, c, 0)->0 + seq!['u'],
{
    let g = cm@;
    let t = seq![c, VIRAMA];
    let l = lookup(g.consonants, c, 0)->0;
    lemma_muted_pair_early(g, t);
    lemma_virama_not_consonant(g);
    assert(t.skip(0) =~= t);
    assert(t.skip(1) =~= seq![VIRAMA]);
    assert forall|i: int| 0 <= i < t.len() implies !consumes(
        step(g, Rule::Glued)(#[trigger] t.skip(i)),
        t.skip(i),
    ) by {}
    lemma_scan_identity(step(g, Rule::Glued), t);
    crate::scan::lemma_scan_unfold(step(g, Rule::MuteFinal), t, 0);
    assert(t.skip(2) =~= Seq::<char>::empty());
    let s7 = l + seq!['u'];
    assert(scan(step(g, Rule::MuteFinal), t) =~= s7);
    lemma_consonant_ascii(g, c);
    assert(plain(s7)) by {
        assert forall|k: int| 0 <= k < s7.len() implies !is_malayalam(#[trigger] s7[k]) by {
            if k < l.len() {
                assert(l[k] as u32 <= 0x7F);
            }
        }
    }
    lemma_pass_plain(g, Rule::Flush, s7);
    lemma_pass_plain(g, Rule::Stray, s7);
}

/// A consonant with a virama before a character that ends no word (and is
/// not Malayalam) is rendered bare, glued to that character.
pub proof fn lemma_mute_glued(cm: &CharacterMap, c: char, x: char)
    requires
        tables_wf(cm@),
        lookup(cm@.consonants, c, 0) is Some,
        !is_malayalam(x),
        x != ZWNJ,
        !crate::rules::boundary(x),
    ensures
        render(cm@, seq![c, VIRAMA, x], false) == lookup(cm@.consonants, c, 0)->0 + seq![x],
{
    let g = cm@;
    let t = seq![c, VIRAMA, x];
    let l = lookup(g.consonants, c, 0)->0;
    lemma_muted_pair_early(g, t);
    assert(t.skip(0) =~= t);
    crate::scan::lemma_scan_unfold(step(g, Rule::Glued), t, 0);
    assert(t.skip(2) =~= seq![x]);
    lemma_pass_plain(g, Rule::Glued, seq![x]);
    let s6 = l + seq![x];
    assert(scan(step(g, Rule::Glued), t) =~= s6);
    lemma_consonant_ascii(g, c);
    assert(plain(s6)) by {
        assert forall|k: int| 0 <= k < s6.len() implies !is_malayalam(#[trigger] s6[k]) by {
            if k < l.len() {
                assert(l[k] as u32 <= 0x7F);
            }
        }
    }
    lemma_pass_plain(g, Rule::MuteFinal, s6);
    lemma_pass_plain(g, Rule::Flush, s6);
    lemma_pass_plain(g, Rule::Stray, s6);
}

/// A consonant with a virama before a word boundary is rendered with a
/// closing "u".
pub proof fn lemma_mute_before_boundary(cm: &CharacterMap, c: char, x: char)
    requires
        tables_wf(cm@),
        lookup(cm@.consonants, c, 0) is Some,
        crate::rules::boundary(x),
    ensures
        render(cm@, seq![c, VIRAMA, x], false) == lookup(cm@.consonants, c, 0)->0 + seq!['u', x],
{
    let g = cm@;
    let t = seq![c, VIRAMA, x];
    let l = lookup(g.consonants, c, 0)->0;
    assert(!is_malayalam(x) && x != ZWNJ);
    lemma_muted_pair_early(g, t);
    lemma_virama_not_consonant(g);
    assert(t.skip(0) =~= t);
    assert(t.skip(1) =~= seq![VIRAMA, x]);
    assert(t.skip(2) =~= seq![x]);
    assert forall|i: int| 0 <= i < t.len() implies !consumes(
        step(g, Rule::Glued)(#[trigger] t.skip(i)),
        t.skip(i),
    ) by {
        if i == 2 && rule_at(g, Rule::Glued, t.skip(i)) is Some {
            lemma_rule_malayalam(g, Rule::Glued, t.skip(i));
        }
    }
    lemma_scan_identity(step(g, Rule::Glued), t);
    crate::scan::lemma_scan_unfold(step(g, Rule::MuteFinal), t, 0);
    lemma_pass_plain(g, Rule::MuteFinal, seq![x]);
    let s7 = l + seq!['u'] + seq![x];
    assert(scan(step(g, Rule::MuteFinal), t) =~= s7);
    lemma_consonant_ascii(g, c);
    assert(plain(s7)) by {
        assert forall|k: int| 0 <= k < s7.len() implies !is_malayalam(#[trigger] s7[k]) by {
            if k < l.len() {
                assert(l[k] as u32 <= 0x7F);
            }
        }
    }
    lemma_pass_plain(g, Rule::Flush, s7);
    lemma_pass_plain(g, Rule::Stray, s7);
    assert(s7 =~= l + seq!['u', x]);
}

/// Whether `c` is a consonant letter or the vowel sign U.
pub open spec fn consonant_or_u(g: GlyphTables) -> spec_fn(char) -> bool {
    |c: char| lookup(g.consonants, c, 0) is Some || c == U_SIGN
}

/// What may stand before a virama when rule `rule` runs.
pub open spec fn before_virama_in(g: GlyphTables, rule: Rule) -> spec_fn(char) -> bool {
    match rule {
        Rule::Flush | Rule::Stray => |c: char| c == U_SIGN,
        _ => consonant_or_u(g),
    }
}

/// What may stand before a virama once rule `rule` has run.
pub open spec fn before_virama_out(g: GlyphTables, rule: Rule) -> spec_fn(char) -> bool {
    match rule {
        Rule::MuteFinal | Rule::Flush => |c: char| c == U_SIGN,
        Rule::Stray => |c: char| false,
        _ => consonant_or_u(g),
    }
}

/// Whether `u` starts with compound `k` and a virama.
pub open spec fn muted_cluster(k: Seq<char>, u: Seq<char>) -> bool {
    starts(u, k) && u.len() > k.len() && u[k.len() as int] == VIRAMA
}

/// What rule `rule` may assume of every text it reads.
pub open spec fn rule_pre(g: GlyphTables, rule: Rule) -> spec_fn(Seq<char>) -> bool {
    match rule {
        Rule::BareCluster(j) => |u: Seq<char>| !muted_cluster(g.compounds[j as int].0, u),
        _ => |u: Seq<char>| true,
    }
}

proof fn lemma_prefix_first(g: Table, u: Seq<char>, j: int, b: int)
    requires
        0 <= j <= b,
        prefix_entry(g, u, j) == Some(b),
    ensures
        forall|c: int| j <= c < b ==> !starts(u, #[trigger] g[c].0),
    decreases g.len() - j,
{
    if j < b {
        lemma_prefix_first(g, u, j + 1, b);
    }
}

proof fn lemma_latin_nonempty(g: Table, c: char)
    requires
        crate::glyphs::latin_ascii(g),
        lookup(g, c, 0) is Some,
    ensures
        lookup(g, c, 0)->0.len() > 0,
{
    lemma_lookup(g, c, 0);
    let q = choose|q: int|
        0 <= q < g.len() && #[trigger] g[q].0 == seq![c] && g[q].1 == lookup(g, c, 0)->0;
    assert(g[q].1.len() > 0);
}

proof fn lemma_u_sign_not_letter(g: GlyphTables)
    requires
        tables_wf(g),
    ensures
        lookup(g.consonants, U_SIGN, 0) is None,
        lookup(g.vowels, U_SIGN, 0) is None,
        lookup(g.chillu, U_SIGN, 0) is None,
{
    lemma_lookup(g.consonants, U_SIGN, 0);
    lemma_lookup(g.vowels, U_SIGN, 0);
    lemma_lookup(g.chillu, U_SIGN, 0);
    if lookup(g.consonants, U_SIGN, 0) is Some {
        let q = choose|q: int|
            0 <= q < g.consonants.len() && #[trigger] g.consonants[q].0 == seq![U_SIGN]
                && g.consonants[q].1 == lookup(g.consonants, U_SIGN, 0)->0;
        assert(g.consonants[q].0.len() > 0);
    }
    if lookup(g.vowels, U_SIGN, 0) is Some {
        let q = choose|q: int|
            0 <= q < g.vowels.len() && #[trigger] g.vowels[q].0 == seq![U_SIGN]
                && g.vowels[q].1 == lookup(g.vowels, U_SIGN, 0)->0;
        assert(g.vowels[q].0.len() > 0);
    }
    if lookup(g.chillu, U_SIGN, 0) is Some {
        let q = choose|q: int|
            0 <= q < g.chillu.len() && #[trigger] g.chillu[q].0 == seq![U_SIGN]
                && g.chillu[q].1 == lookup(g.chillu, U_SIGN, 0)->0;
        assert(g.chillu[q].0.len() > 0);
    }
}

/// The local facts that carry the placement of viramas through rule `rule`.
proof fn lemma_rule_attached(g: GlyphTables, rule: Rule, u: Seq<char>)
    requires
        tables_wf(g),
        rule_pre(g, rule)(u),
        attached(before_virama_in(g, rule), u),
    ensures
        consumes(rule_at(g, rule, u), u) ==> hit_out(rule_at(g, rule, u)).len() > 0 && no_virama(
            hit_out(rule_at(g, rule, u)),
        ),
        consumes(rule_at(g, rule, u), u) && hit_len(rule_at(g, rule, u)) < u.len() && u[hit_len(
            rule_at(g, rule, u),
        ) as int] == VIRAMA ==> before_virama_out(g, rule)(hit_out(rule_at(g, rule, u)).last()),
        !consumes(rule_at(g, rule, u), u) && u.len() >= 2 && u[1] == VIRAMA ==> before_virama_out(
            g,
            rule,
        )(u[0]),
{
    let r = rule_at(g, rule, u);
    let ok = before_virama_in(g, rule);
    lemma_virama_not_consonant(g);
    lemma_u_sign_not_letter(g);
    assert(!ok(VIRAMA));
    if consumes(r, u) {
        let p = |c: char| c != VIRAMA;
        match rule {
            Rule::GluedCluster(j) => {
                let k = g.compounds[j as int].0;
                assert(u[k.len() as int] == VIRAMA);
                assert(u[k.len() + 1int] != VIRAMA);
            },
            _ => {},
        }
        assert(holds_of_ascii(p));
        lemma_rule_keeps(g, rule, u, p);
        assert(no_virama(hit_out(r)));
        let n = hit_len(r) as int;
        let out = hit_out(r);
        match rule {
            Rule::FuseCompounds | Rule::FuseVowels | Rule::FuseConsonants => {
                let t = match rule {
                    Rule::FuseCompounds => g.compounds,
                    Rule::FuseVowels => g.vowels,
                    _ => g.consonants,
                };
                let m = g.modifiers;
                lemma_fuse(t, m, u, 0);
                let (a, b) = choose|a: int, b: int|
                    0 <= a < t.len() && 0 <= b < m.len() && starts(u, #[trigger] t[a].0) && starts(
                        u.skip(t[a].0.len() as int),
                        #[trigger] m[b].0,
                    ) && hit_out(fuse_at(t, m, u, 0)) == t[a].1 + m[b].1 && hit_len(
                        fuse_at(t, m, u, 0),
                    ) == t[a].0.len() + m[b].0.len() && prefix_entry(
                        m,
                        u.skip(t[a].0.len() as int),
                        0,
                    ) == Some(b);
                assert(t[a].1.len() > 0);
                if n < u.len() && u[n] == VIRAMA {
                    let v = u.skip(t[a].0.len() as int);
                    let mk = m[b].0;
                    assert(mk.len() > 0);
                    assert(u[n - 1] == v[mk.len() - 1]) by {
                        assert(v.take(mk.len() as int)[mk.len() - 1] == v[mk.len() - 1]);
                    }
                    assert(ok(u[n - 1]));
                    if b == 0 {
                        assert(mk[1] == VIRAMA);
                        assert(v.take(mk.len() as int)[1] == v[1]);
                    } else {
                        assert(mk.len() == 1);
                        assert(v.take(1)[0] == v[0]);
                        assert(!(0x0D15 <= mk[0] as u32 <= 0x0D39));
                        lemma_lookup(g.consonants, u[n - 1], 0);
                        if lookup(g.consonants, u[n - 1], 0) is Some {
                            let q = choose|q: int|
                                0 <= q < g.consonants.len() && #[trigger] g.consonants[q].0
                                    == seq![u[n - 1]] && g.consonants[q].1 == lookup(
                                    g.consonants,
                                    u[n - 1],
                                    0,
                                )->0;
                            assert(g.consonants[q].0.len() > 0);
                            assert(g.consonants[q].0[0] == u[n - 1]);
                        }
                        assert(u[n - 1] == U_SIGN);
                        assert(v[1] == u[n]);
                        assert(v.take(2) =~= m[0].0);
                        lemma_prefix_first(m, v, 0, b);
                    }
                }
            },
            Rule::GluedCluster(j) => {},
            Rule::MuteCluster(j) => {},
            Rule::BareCluster(j) => {},
            Rule::Alive => {
                lemma_latin_nonempty(g.consonants, u[0]);
            },
            Rule::Glued => {
                lemma_latin_nonempty(g.consonants, u[0]);
            },
            Rule::MuteFinal => {},
            Rule::Flush => {
                if lookup(g.consonants, u[0], 0) is Some {
                    lemma_latin_nonempty(g.consonants, u[0]);
                } else if lookup(g.vowels, u[0], 0) is Some {
                    lemma_latin_nonempty(g.vowels, u[0]);
                } else if lookup(g.chillu, u[0], 0) is Some {
                    lemma_latin_nonempty(g.chillu, u[0]);
                }
            },
            Rule::Stray => {
                let m = g.modifiers;
                lemma_prefix(m, u, 0);
                let b = prefix_entry(m, u, 0)->0;
                assert(m[b].1.len() > 0);
                if n < u.len() && u[n] == VIRAMA {
                    let mk = m[b].0;
                    assert(u.take(mk.len() as int)[mk.len() - 1] == u[mk.len() - 1]);
                    if b == 0 {
                        assert(mk[1] == VIRAMA);
                    } else {
                        assert(mk.len() == 1);
                        assert(u[0] == U_SIGN);
                        assert(u.take(2) =~= m[0].0);
                        lemma_prefix_first(m, u, 0, b);
                    }
                }
            },
        }
    } else {
        if u.len() >= 2 && u[1] == VIRAMA {
            assert(ok(u[0]));
            match rule {
                Rule::Stray => {
                    assert(u.take(2) =~= g.modifiers[0].0);
                    lemma_prefix(g.modifiers, u, 0);
                    assert(prefix_entry(g.modifiers, u, 0) is Some);
                    let b = prefix_entry(g.modifiers, u, 0)->0;
                    assert(g.modifiers[b].0.len() > 0);
                },
                _ => {},
            }
        }
    }
}

/// Pass `rule` carries the placement of viramas over.
proof fn lemma_pass_attached(g: GlyphTables, rule: Rule, t: Seq<char>)
    requires
        tables_wf(g),
        forall|i: int| 0 <= i <= t.len() ==> #[trigger] rule_pre(g, rule)(t.skip(i)),
        attached(before_virama_in(g, rule), t),
    ensures
        attached(before_virama_out(g, rule), scan(step(g, rule), t)),
        scan(step(g, rule), t).len() > 0 && scan(step(g, rule), t)[0] == VIRAMA ==> t.len() > 0
            && t[0] == VIRAMA,
{
    let f = step(g, rule);
    let pre = rule_pre(g, rule);
    let ok_in = before_virama_in(g, rule);
    let ok_out = before_virama_out(g, rule);
    assert forall|u: Seq<char>| pre(u) && attached(ok_in, u) implies (consumes(#[trigger] f(u), u)
        ==> hit_out(f(u)).len() > 0 && no_virama(hit_out(f(u)))) && (consumes(f(u), u) && hit_len(
        f(u),
    ) < u.len() && u[hit_len(f(u)) as int] == VIRAMA ==> ok_out(hit_out(f(u)).last())) && (
    !consumes(f(u), u) && u.len() >= 2 && u[1] == VIRAMA ==> ok_out(u[0])) by {
        lemma_rule_attached(g, rule, u);
    }
    lemma_scan_attached(f, pre, ok_in, ok_out, t);
}

/// After the closing-"u" rule of compound `j`, that compound is never
/// followed by a virama.
proof fn lemma_mute_cluster_clears(g: GlyphTables, j: usize, t: Seq<char>)
    requires
        tables_wf(g),
        j < g.compounds.len(),
    ensures
        forall|i: int|
            0 <= i <= scan(step(g, Rule::MuteCluster(j)), t).len() ==> !muted_cluster(
                g.compounds[j as int].0,
                #[trigger] scan(step(g, Rule::MuteCluster(j)), t).skip(i),
            ),
    decreases t.len(),
{
    let f = step(g, Rule::MuteCluster(j));
    let k = g.compounds[j as int].0;
    let out = scan(f, t);
    assert(k.len() >= 3 && is_malayalam(k[0]));
    if t.len() == 0 {
        assert forall|i: int| 0 <= i <= out.len() implies !muted_cluster(k, #[trigger] out.skip(i)) by {
            assert(out.skip(i).len() == 0);
        }
    } else {
        let m = consumes(f(t), t);
        let n: int = if m {
            hit_len(f(t)) as int
        } else {
            1
        };
        let head = if m {
            hit_out(f(t))
        } else {
            seq![t[0]]
        };
        let rest = t.skip(n);
        lemma_mute_cluster_clears(g, j, rest);
        let r = scan(f, rest);
        assert(out == head + r);
        assert forall|u: Seq<char>| consumes(#[trigger] f(u), u) implies hit_out(f(u)).len() > 0
            && hit_out(f(u))[0] as u32 <= 0x7F by {
            assert(g.compounds[j as int].1.len() > 0);
            assert(g.compounds[j as int].1[0] as u32 <= 0x7F);
        }
        assert forall|i: int| 0 <= i <= out.len() implies !muted_cluster(k, #[trigger] out.skip(i)) by {
            let w = out.skip(i);
            if i >= head.len() {
                assert(w =~= r.skip(i - head.len()));
            } else if muted_cluster(k, w) {
                lemma_starts_first(w, k);
                if m {
                    assert(g.compounds[j as int].1.len() > 0);
                    assert(head =~= g.compounds[j as int].1 + seq!['u']);
                    if i < g.compounds[j as int].1.len() {
                        assert(head[i] as u32 <= 0x7F);
                    }
                    assert(w[0] == head[i]);
                } else {
                    assert(i == 0);
                    assert(w == out);
                    assert forall|c: int| 0 <= c < k.len() implies (#[trigger] r[c]) as u32
                        > 0x7F by {
                        if c + 1 < k.len() {
                            assert(w.take(k.len() as int)[c + 1] == w[c + 1]);
                            assert(is_malayalam(k[c + 1]));
                        }
                        assert(out[c + 1] == r[c]);
                    }
                    lemma_scan_copies(f, rest, k.len() as int);
                    assert(t.take(k.len() as int) =~= k) by {
                        assert forall|c: int| 0 <= c < k.len() implies t[c] == k[c] by {
                            assert(w.take(k.len() as int)[c] == w[c]);
                            if c > 0 {
                                assert(rest[c - 1] == r[c - 1]);
                                assert(out[c] == r[c - 1]);
                            }
                        }
                    }
                    assert(t[k.len() as int] == VIRAMA) by {
                        assert(rest[k.len() - 1] == r[k.len() - 1]);
                        assert(out[k.len() as int] == r[k.len() - 1]);
                    }
                    assert(consumes(f(t), t));
                }
            }
        }
    }
}

/// The compound rules from compound `j` on carry the placement of viramas over.
proof fn lemma_clusters_attached(g: GlyphTables, j: int, t: Seq<char>)
    requires
        tables_wf(g),
        attached(consonant_or_u(g), t),
        0 <= j,
    ensures
        attached(consonant_or_u(g), clusters_from(g, j, t)),
        clusters_from(g, j, t).len() > 0 && clusters_from(g, j, t)[0] == VIRAMA ==> t.len() > 0
            && t[0] == VIRAMA,
    decreases g.compounds.len() - j,
{
    if 0 <= j < g.compounds.len() {
        let js = j as usize;
        let t1 = scan(step(g, Rule::GluedCluster(js)), t);
        let t2 = scan(step(g, Rule::MuteCluster(js)), t1);
        let t3 = scan(step(g, Rule::BareCluster(js)), t2);
        lemma_pass_attached(g, Rule::GluedCluster(js), t);
        lemma_pass_attached(g, Rule::MuteCluster(js), t1);
        lemma_mute_cluster_clears(g, js, t1);
        assert forall|i: int| 0 <= i <= t2.len() implies #[trigger] rule_pre(
            g,
            Rule::BareCluster(js),
        )(t2.skip(i)) by {}
        lemma_pass_attached(g, Rule::BareCluster(js), t2);
        lemma_clusters_attached(g, j + 1, t3);
    }
}

/// Whether every virama of `t` follows a consonant letter or the vowel sign U.
pub open spec fn virama_after_letter(g: GlyphTables, t: Seq<char>) -> bool {
    forall|j: int|
        0 <= j < t.len() && #[trigger] t[j] == VIRAMA ==> j >= 1 && (lookup(g.consonants, t[j - 1], 0)
            is Some || t[j - 1] == U_SIGN)
}

/// Where every virama follows a consonant letter or the vowel sign U once
/// zero-width non-joiners are removed, the uncapitalized romanization holds
/// no virama.
pub proof fn lemma_virama_not_emitted(cm: &CharacterMap, t: Seq<char>)
    requires
        tables_wf(cm@),
        virama_after_letter(cm@, without_zwnj(t)),
    ensures
        no_virama(render(cm@, t, false)),
{
    let g = cm@;
    let s0 = without_zwnj(t);
    let s1 = scan(step(g, Rule::FuseCompounds), s0);
    let s2 = scan(step(g, Rule::FuseVowels), s1);
    let s3 = scan(step(g, Rule::FuseConsonants), s2);
    let s4 = clusters_from(g, 0, s3);
    let s5 = scan(step(g, Rule::Alive), s4);
    let s6 = scan(step(g, Rule::Glued), s5);
    let s7 = scan(step(g, Rule::MuteFinal), s6);
    let s8 = scan(step(g, Rule::Flush), s7);
    let s9 = scan(step(g, Rule::Stray), s8);
    assert(attached(consonant_or_u(g), s0));
    lemma_pass_attached(g, Rule::FuseCompounds, s0);
    lemma_pass_attached(g, Rule::FuseVowels, s1);
    lemma_pass_attached(g, Rule::FuseConsonants, s2);
    lemma_clusters_attached(g, 0, s3);
    lemma_pass_attached(g, Rule::Alive, s4);
    lemma_pass_attached(g, Rule::Glued, s5);
    lemma_pass_attached(g, Rule::MuteFinal, s6);
    lemma_pass_attached(g, Rule::Flush, s7);
    lemma_pass_attached(g, Rule::Stray, s8);
    assert(s9 == render(g, t, false));
    assert forall|k: int| 0 <= k < s9.len() implies #[trigger] s9[k] != VIRAMA by {
        if k == 0 {
            if s0.len() > 0 {
                assert(s0[0] != VIRAMA);
            }
        }
    }
}

} // verus!
