//! The rewriting rules, each a left-to-right pass over the text.
use vstd::prelude::*;
use crate::glyphs::{CharacterMap, ANUSVARA, VIRAMA};
use crate::scan::{
    hit_len, lookup, lookup_exec, prefix_entry, prefix_entry_exec, push_all, scan, starts,
    starts_at, table_view, ExecTable, GlyphTables, Step, Table,
};
use crate::text::{is_white, is_word_char, white_space, word_char};

verus! {

/// One rewriting pass.
#[derive(Clone, Copy)]
pub enum Rule {
    /// A compound followed by a vowel sign.
    FuseCompounds,
    /// A vowel followed by a vowel sign.
    FuseVowels,
    /// A consonant followed by a vowel sign.
    FuseConsonants,
    /// Compound `j`, virama, word character: glued to what follows.
    GluedCluster(usize),
    /// Compound `j` and virama: a closing "u".
    MuteCluster(usize),
    /// Compound `j` alone: the inherent "a".
    BareCluster(usize),
    /// A consonant not followed by a virama: the inherent "a".
    Alive,
    /// Consonant, virama, then no word boundary: silent, glued to what follows.
    Glued,
    /// Consonant and virama, left over: a closing "u".
    MuteFinal,
    /// Any consonant, vowel, chillu or anusvara left: its bare rendering.
    Flush,
    /// Any vowel sign left: its own rendering.
    Stray,
}

/// Characters after a virama that end a word.
pub open spec fn boundary(c: char) -> bool {
    white_space(c) || c == ')' || c == '.' || c == ';' || c == ',' || c == '"' || c == '\''
        || c == '/' || c == '\\' || c == '%' || c == '!'
}

/// The first entry of `g`, from `j` on, that `u` begins with and that a vowel
/// sign of `m` follows: both consumed, both renderings emitted.
pub open spec fn fuse_at(g: Table, m: Table, u: Seq<char>, j: int) -> Option<(nat, Seq<char>)>
    decreases g.len() - j,
{
    if j < 0 || j >= g.len() {
        None
    } else if starts(u, g[j].0) && prefix_entry(m, u.skip(g[j].0.len() as int), 0) is Some {
        let q = prefix_entry(m, u.skip(g[j].0.len() as int), 0)->0;
        Some(((g[j].0.len() + m[q].0.len()) as nat, g[j].1 + m[q].1))
    } else {
        fuse_at(g, m, u, j + 1)
    }
}

/// What rule `rule` does at the start of `u`.
pub open spec fn rule_at(g: GlyphTables, rule: Rule, u: Seq<char>) -> Option<(nat, Seq<char>)> {
    match rule {
        Rule::FuseCompounds => fuse_at(g.compounds, g.modifiers, u, 0),
        Rule::FuseVowels => fuse_at(g.vowels, g.modifiers, u, 0),
        Rule::FuseConsonants => fuse_at(g.consonants, g.modifiers, u, 0),
        Rule::GluedCluster(j) => {
            if j < g.compounds.len() {
                let k = g.compounds[j as int].0;
                if starts(u, k) && u.len() > k.len() + 1 && u[k.len() as int] == VIRAMA
                    && word_char(u[k.len() + 1int]) {
                    Some(((k.len() + 2) as nat, g.compounds[j as int].1 + seq![u[k.len() + 1int]]))
                } else {
                    None
                }
            } else {
                None
            }
        },
        Rule::MuteCluster(j) => {
            if j < g.compounds.len() {
                let k = g.compounds[j as int].0;
                if starts(u, k) && u.len() > k.len() && u[k.len() as int] == VIRAMA {
                    Some(((k.len() + 1) as nat, g.compounds[j as int].1 + seq!['u']))
                } else {
                    None
                }
            } else {
                None
            }
        },
        Rule::BareCluster(j) => {
            if j < g.compounds.len() && starts(u, g.compounds[j as int].0) {
                Some((g.compounds[j as int].0.len(), g.compounds[j as int].1 + seq!['a']))
            } else {
                None
            }
        },
        Rule::Alive => {
            if u.len() > 0 && lookup(g.consonants, u[0], 0) is Some && !(u.len() > 1 && u[1]
                == VIRAMA) {
                Some((1, lookup(g.consonants, u[0], 0)->0 + seq!['a']))
            } else {
                None
            }
        },
        Rule::Glued => {
            if u.len() > 2 && lookup(g.consonants, u[0], 0) is Some && u[1] == VIRAMA
                && !boundary(u[2]) {
                Some((2, lookup(g.consonants, u[0], 0)->0))
            } else {
                None
            }
        },
        Rule::MuteFinal => {
            if u.len() > 1 && lookup(g.consonants, u[0], 0) is Some && u[1] == VIRAMA {
                Some((2, lookup(g.consonants, u[0], 0)->0 + seq!['u']))
            } else {
                None
            }
        },
        Rule::Flush => {
            if u.len() == 0 {
                None
            } else if lookup(g.consonants, u[0], 0) is Some {
                Some((1, lookup(g.consonants, u[0], 0)->0))
            } else if lookup(g.vowels, u[0], 0) is Some {
                Some((1, lookup(g.vowels, u[0], 0)->0))
            } else if lookup(g.chillu, u[0], 0) is Some {
                Some((1, lookup(g.chillu, u[0], 0)->0))
            } else if u[0] == ANUSVARA {
                Some((1, seq!['m']))
            } else {
                None
            }
        },
        Rule::Stray => {
            if prefix_entry(g.modifiers, u, 0) is Some {
                let q = prefix_entry(g.modifiers, u, 0)->0;
                Some((g.modifiers[q].0.len(), g.modifiers[q].1))
            } else {
                None
            }
        },
    }
}

/// The pass of rule `rule`.
pub open spec fn step(g: GlyphTables, rule: Rule) -> Step {
    |u: Seq<char>| rule_at(g, rule, u)
}

/// The spec form of a rule's exec answer.
pub open spec fn hit_view(h: Option<(usize, Vec<char>)>) -> Option<(nat, Seq<char>)> {
    match h {
        Some((n, o)) => Some((n as nat, o@)),
        None => None,
    }
}

/// A match found by `prefix_entry` is a prefix.
pub proof fn lemma_prefix_entry(g: Table, u: Seq<char>, j: int)
    requires
        prefix_entry(g, u, j) is Some,
    ensures
        0 <= prefix_entry(g, u, j)->0 < g.len(),
        starts(u, g[prefix_entry(g, u, j)->0].0),
    decreases g.len() - j,
{
    if j >= 0 && j < g.len() && !starts(u, g[j].0) {
        lemma_prefix_entry(g, u, j + 1);
    }
}

fn concat(a: &Vec<char>, b: &Vec<char>) -> (r: Vec<char>)
    ensures
        r@ == a@ + b@,
{
    let mut r: Vec<char> = Vec::new();
    push_all(&mut r, a);
    push_all(&mut r, b);
    proof {
        assert(r@ =~= a@ + b@);
    }
    r
}

fn with_char(a: &Vec<char>, c: char) -> (r: Vec<char>)
    ensures
        r@ == a@ + seq![c],
{
    let mut r: Vec<char> = Vec::new();
    push_all(&mut r, a);
    r.push(c);
    proof {
        assert(r@ =~= a@ + seq![c]);
    }
    r
}

/// Exec form of `fuse_at`.
fn fuse_exec(g: &ExecTable, m: &ExecTable, t: &Vec<char>, i: usize) -> (r: Option<(usize, Vec<char>)>)
    requires
        i < t.len(),
    ensures
        hit_view(r) == fuse_at(table_view(g@), table_view(m@), t@.skip(i as int), 0),
        hit_len(hit_view(r)) <= t.len() - i,
{
    let ghost gv = table_view(g@);
    let ghost mv = table_view(m@);
    let ghost u = t@.skip(i as int);
    let mut j: usize = 0;
    while j < g.len()
        invariant
            j <= g.len(),
            i < t.len(),
            gv == table_view(g@),
            mv == table_view(m@),
            u == t@.skip(i as int),
            fuse_at(gv, mv, u, 0) == fuse_at(gv, mv, u, j as int),
        decreases g.len() - j,
    {
        let key = &g[j].0;
        if starts_at(t, i, key) {
            let k = i + key.len();
            proof {
                assert(u.skip(key.len() as int) =~= t@.skip(k as int));
            }
            match prefix_entry_exec(m, t, k) {
                Some(q) => {
                    proof {
                        lemma_prefix_entry(mv, t@.skip(k as int), 0);
                    }
                    let out = concat(&g[j].1, &m[q].1);
                    return Some((key.len() + m[q].0.len(), out));
                },
                None => {},
            }
        }
        j += 1;
    }
    None
}

/// Exec form of `rule_at`, at position `i` of `t`.
fn rule_exec(cm: &CharacterMap, rule: Rule, t: &Vec<char>, i: usize) -> (r: Option<(usize, Vec<char>)>)
    requires
        i < t.len(),
    ensures
        hit_view(r) == rule_at(cm@, rule, t@.skip(i as int)),
        hit_len(hit_view(r)) <= t.len() - i,
{
    let ghost u = t@.skip(i as int);
    match rule {
        Rule::FuseCompounds => fuse_exec(cm.compounds(), cm.modifiers(), t, i),
        Rule::FuseVowels => fuse_exec(cm.vowels(), cm.modifiers(), t, i),
        Rule::FuseConsonants => fuse_exec(cm.consonants(), cm.modifiers(), t, i),
        Rule::GluedCluster(j) => {
            let co = cm.compounds();
            if j < co.len() {
                let k = &co[j].0;
                if starts_at(t, i, k) && t.len() - i - k.len() > 1 && t[i + k.len()] == VIRAMA {
                    let w = t[i + k.len() + 1];
                    if is_word_char(w) {
                        return Some((k.len() + 2, with_char(&co[j].1, w)));
                    }
                }
            }
            None
        },
        Rule::MuteCluster(j) => {
            let co = cm.compounds();
            if j < co.len() {
                let k = &co[j].0;
                if starts_at(t, i, k) && t.len() - i > k.len() && t[i + k.len()] == VIRAMA {
                    return Some((k.len() + 1, with_char(&co[j].1, 'u')));
                }
            }
            None
        },
        Rule::BareCluster(j) => {
            let co = cm.compounds();
            if j < co.len() && starts_at(t, i, &co[j].0) {
                return Some((co[j].0.len(), with_char(&co[j].1, 'a')));
            }
            None
        },
        Rule::Alive => {
            match lookup_exec(cm.consonants(), t[i]) {
                Some(l) => {
                    if !(t.len() - i > 1 && t[i + 1] == VIRAMA) {
                        Some((1, with_char(l, 'a')))
                    } else {
                        None
                    }
                },
                None => None,
            }
        },
        Rule::Glued => {
            if t.len() - i > 2 && t[i + 1] == VIRAMA {
                let b = t[i + 2];
                let bnd = is_white(b) || b == ')' || b == '.' || b == ';' || b == ',' || b == '"'
                    || b == '\'' || b == '/' || b == '\\' || b == '%' || b == '!';
                if !bnd {
                    match lookup_exec(cm.consonants(), t[i]) {
                        Some(l) => {
                            return Some((2, l.clone()));
                        },
                        None => {},
                    }
                }
            }
            None
        },
        Rule::MuteFinal => {
            if t.len() - i > 1 && t[i + 1] == VIRAMA {
                match lookup_exec(cm.consonants(), t[i]) {
                    Some(l) => {
                        return Some((2, with_char(l, 'u')));
                    },
                    None => {},
                }
            }
            None
        },
        Rule::Flush => {
            let c = t[i];
            match lookup_exec(cm.consonants(), c) {
                Some(l) => {
                    return Some((1, l.clone()));
                },
                None => {},
            }
            match lookup_exec(cm.vowels(), c) {
                Some(l) => {
                    return Some((1, l.clone()));
                },
                None => {},
            }
            match lookup_exec(cm.chillu(), c) {
                Some(l) => {
                    return Some((1, l.clone()));
                },
                None => {},
            }
            if c == ANUSVARA {
                Some((1, vec!['m']))
            } else {
                None
            }
        },
        Rule::Stray => {
            let md = cm.modifiers();
            match prefix_entry_exec(md, t, i) {
                Some(q) => {
                    proof {
                        lemma_prefix_entry(table_view(md@), u, 0);
                    }
                    Some((md[q].0.len(), md[q].1.clone()))
                },
                None => None,
            }
        },
    }
}

/// Runs the pass of rule `rule` over `t`.
pub fn apply(cm: &CharacterMap, rule: Rule, t: &Vec<char>) -> (r: Vec<char>)
    ensures
        r@ == scan(step(cm@, rule), t@),
{
    let ghost f = step(cm@, rule);
    let mut out: Vec<char> = Vec::new();
    let mut i: usize = 0;
    proof {
        assert(t@.skip(0) =~= t@);
    }
    while i < t.len()
        invariant
            i <= t.len(),
            f == step(cm@, rule),
            scan(f, t@) == out@ + scan(f, t@.skip(i as int)),
        decreases t.len() - i,
    {
        proof {
            crate::scan::lemma_scan_unfold(f, t@, i as int);
        }
        let h = rule_exec(cm, rule, t, i);
        let ghost before = out@;
        let ghost rest_one = scan(f, t@.skip(i + 1));
        match h {
            Some((n, piece)) => {
                if n >= 1 {
                    let ghost rest = scan(f, t@.skip(i + n));
                    push_all(&mut out, &piece);
                    proof {
                        assert(out@ + rest =~= before + (piece@ + rest));
                    }
                    i += n;
                } else {
                    out.push(t[i]);
                    proof {
                        assert(out@ + rest_one =~= before + (seq![t@[i as int]] + rest_one));
                    }
                    i += 1;
                }
            },
            None => {
                out.push(t[i]);
                proof {
                    assert(out@ + rest_one =~= before + (seq![t@[i as int]] + rest_one));
                }
                i += 1;
            },
        }
    }
    proof {
        assert(t@.skip(t.len() as int) =~= Seq::<char>::empty());
    }
    out
}

} // verus!

verus! {

/// The three compound rules for each compound from index `j` on, one
/// compound after another, in table order.
pub open spec fn clusters_from(g: GlyphTables, j: int, t: Seq<char>) -> Seq<char>
    decreases g.compounds.len() - j,
{
    if 0 <= j < g.compounds.len() {
        let t1 = scan(step(g, Rule::GluedCluster(j as usize)), t);
        let t2 = scan(step(g, Rule::MuteCluster(j as usize)), t1);
        let t3 = scan(step(g, Rule::BareCluster(j as usize)), t2);
        clusters_from(g, j + 1, t3)
    } else {
        t
    }
}

/// The romanization of `t` before capitalization.
pub open spec fn rewrite(g: GlyphTables, t: Seq<char>) -> Seq<char> {
    let s0 = crate::text::without_zwnj(t);
    let s1 = scan(step(g, Rule::FuseCompounds), s0);
    let s2 = scan(step(g, Rule::FuseVowels), s1);
    let s3 = scan(step(g, Rule::FuseConsonants), s2);
    let s4 = clusters_from(g, 0, s3);
    let s5 = scan(step(g, Rule::Alive), s4);
    let s6 = scan(step(g, Rule::Glued), s5);
    let s7 = scan(step(g, Rule::MuteFinal), s6);
    let s8 = scan(step(g, Rule::Flush), s7);
    scan(step(g, Rule::Stray), s8)
}

/// The romanization of `t`, sentence-cased when `caps` holds.
pub open spec fn render(g: GlyphTables, t: Seq<char>, caps: bool) -> Seq<char> {
    if caps {
        crate::sentence::sentence_case(rewrite(g, t))
    } else {
        rewrite(g, t)
    }
}

impl CharacterMap {
    /// Applies the compound rules, compound by compound.
    fn resolve_compounds(&self, t: Vec<char>) -> (r: Vec<char>)
        ensures
            r@ == clusters_from(self@, 0, t@),
    {
        let n = self.compounds().len();
        let mut s = t;
        let mut j: usize = 0;
        while j < n
            invariant
                j <= n,
                n == self@.compounds.len(),
                clusters_from(self@, 0, t@) == clusters_from(self@, j as int, s@),
            decreases n - j,
        {
            let s1 = apply(self, Rule::GluedCluster(j), &s);
            let s2 = apply(self, Rule::MuteCluster(j), &s1);
            s = apply(self, Rule::BareCluster(j), &s2);
            j += 1;
        }
        s
    }

    /// Romanizes `given_text`, sentence-cased when `caps` holds.
    fn render(&self, given_text: &str, caps: bool) -> (r: String)
        ensures
            r@ == render(self@, given_text@, caps),
    {
        let stripped = crate::text::strip_zwnj(given_text);
        let s0 = crate::text::chars_of(stripped.as_str());
        let s1 = apply(self, Rule::FuseCompounds, &s0);
        let s2 = apply(self, Rule::FuseVowels, &s1);
        let s3 = apply(self, Rule::FuseConsonants, &s2);
        let s4 = self.resolve_compounds(s3);
        let s5 = apply(self, Rule::Alive, &s4);
        let s6 = apply(self, Rule::Glued, &s5);
        let s7 = apply(self, Rule::MuteFinal, &s6);
        let s8 = apply(self, Rule::Flush, &s7);
        let s9 = apply(self, Rule::Stray, &s8);
        if !caps {
            return crate::text::string_of(&s9);
        }
        crate::text::string_of(&crate::sentence::sentence_case_chars(&s9))
    }

    /// Romanizes `text`, capitalizing each sentence when `capitalize` holds.
    pub fn transliterate(&self, text: &str, capitalize: bool) -> (r: String)
        ensures
            r@ == render(self@, text@, capitalize),
    {
        self.render(text, capitalize)
    }
}

} // verus!
