//! The engine: five glyph tables, built once.
use vstd::prelude::*;
use crate::scan::{table_view, ExecTable, GlyphTables, Table};

verus! {

/// The virama (chandrakkala): mutes the inherent vowel of a consonant.
pub const VIRAMA: char = '\u{0D4D}';

/// Zero-width non-joiner, removed before any rewriting.
pub const ZWNJ: char = '\u{200C}';

/// The vowel sign U, which with a virama forms the closing "u" sign.
pub const U_SIGN: char = '\u{0D41}';

/// The anusvara: a nasal rendered as "m".
pub const ANUSVARA: char = '\u{0D02}';

/// The glyph tables of the engine.
pub open spec fn glyph_tables() -> GlyphTables {
    GlyphTables {
        vowels: seq![
            (seq!['അ'], seq!['a']),
            (seq!['ആ'], seq!['a', 'a']),
            (seq!['ഇ'], seq!['i']),
            (seq!['ഈ'], seq!['e', 'e']),
            (seq!['ഉ'], seq!['u']),
            (seq!['ഊ'], seq!['o', 'o']),
            (seq!['ഋ'], seq!['r', 'u']),
            (seq!['എ'], seq!['e']),
            (seq!['ഏ'], seq!['e']),
            (seq!['ഐ'], seq!['a', 'i']),
            (seq!['ഒ'], seq!['o']),
            (seq!['ഓ'], seq!['o']),
            (seq!['ഔ'], seq!['a', 'u']),
        ],
        compounds: seq![
            (seq!['ന', VIRAMA, 'ത', VIRAMA, 'യ'], seq!['n', 't', 'h', 'y']),
            (seq!['ക', VIRAMA, 'ക'], seq!['k', 'k']),
            (seq!['ഗ', VIRAMA, 'ഗ'], seq!['g', 'g']),
            (seq!['ങ', VIRAMA, 'ങ'], seq!['n', 'g']),
            (seq!['ച', VIRAMA, 'ച'], seq!['c', 'c', 'h']),
            (seq!['ജ', VIRAMA, 'ജ'], seq!['j', 'j']),
            (seq!['ഞ', VIRAMA, 'ഞ'], seq!['n', 'j']),
            (seq!['ട', VIRAMA, 'ട'], seq!['t', 't']),
            (seq!['ണ', VIRAMA, 'ണ'], seq!['n', 'n']),
            (seq!['ത', VIRAMA, 'ത'], seq!['t', 't', 'h']),
            (seq!['ദ', VIRAMA, 'ദ'], seq!['d', 'd', 'h']),
            (seq!['ദ', VIRAMA, 'ധ'], seq!['d', 'd', 'h']),
            (seq!['ന', VIRAMA, 'ന'], seq!['n', 'n']),
            (seq!['ന', VIRAMA, 'ത'], seq!['n', 't', 'h']),
            (seq!['ങ', VIRAMA, 'ക'], seq!['n', 'k']),
            (seq!['ണ', VIRAMA, 'ട'], seq!['n', 'd']),
            (seq!['ബ', VIRAMA, 'ബ'], seq!['b', 'b']),
            (seq!['പ', VIRAMA, 'പ'], seq!['p', 'p']),
            (seq!['മ', VIRAMA, 'മ'], seq!['m', 'm']),
            (seq!['യ', VIRAMA, 'യ'], seq!['y', 'y']),
            (seq!['ല', VIRAMA, 'ല'], seq!['l', 'l']),
            (seq!['വ', VIRAMA, 'വ'], seq!['v', 'v']),
            (seq!['ശ', VIRAMA, 'ശ'], seq!['s', 'h']),
            (seq!['സ', VIRAMA, 'സ'], seq!['s']),
            (seq!['ക', VIRAMA, 'സ'], seq!['k', 's']),
            (seq!['ഞ', VIRAMA, 'ച'], seq!['n', 'c', 'h']),
            (seq!['ക', VIRAMA, 'ഷ'], seq!['k', 's', 'h']),
            (seq!['മ', VIRAMA, 'പ'], seq!['m', 'p']),
            (seq!['റ', VIRAMA, 'റ'], seq!['t', 't']),
            (seq!['ന', VIRAMA, 'റ'], seq!['n', 't']),
        ],
        consonants: seq![
            (seq!['ക'], seq!['k']),
            (seq!['ഖ'], seq!['k', 'h']),
            (seq!['ഗ'], seq!['g']),
            (seq!['ഘ'], seq!['g', 'h']),
            (seq!['ങ'], seq!['n', 'g']),
            (seq!['ച'], seq!['c', 'h']),
            (seq!['ഛ'], seq!['c', 'h', 'h']),
            (seq!['ജ'], seq!['j']),
            (seq!['ഝ'], seq!['j', 'h']),
            (seq!['ഞ'], seq!['n', 'j']),
            (seq!['ട'], seq!['t']),
            (seq!['ഠ'], seq!['d', 't']),
            (seq!['ഡ'], seq!['d']),
            (seq!['ഢ'], seq!['d', 'd']),
            (seq!['ണ'], seq!['n']),
            (seq!['ത'], seq!['t', 'h']),
            (seq!['ഥ'], seq!['t', 'h']),
            (seq!['ദ'], seq!['d']),
            (seq!['ധ'], seq!['d', 'h']),
            (seq!['ന'], seq!['n']),
            (seq!['പ'], seq!['p']),
            (seq!['ഫ'], seq!['p', 'h']),
            (seq!['ബ'], seq!['b']),
            (seq!['ഭ'], seq!['b', 'h']),
            (seq!['മ'], seq!['m']),
            (seq!['യ'], seq!['y']),
            (seq!['ര'], seq!['r']),
            (seq!['ല'], seq!['l']),
            (seq!['വ'], seq!['v']),
            (seq!['ശ'], seq!['s', 'h']),
            (seq!['ഷ'], seq!['s', 'h']),
            (seq!['സ'], seq!['s']),
            (seq!['ഹ'], seq!['h']),
            (seq!['ള'], seq!['l']),
            (seq!['ഴ'], seq!['z', 'h']),
            (seq!['റ'], seq!['r']),
        ],
        chillu: seq![
            (seq!['ൽ'], seq!['l']),
            (seq!['ൾ'], seq!['l']),
            (seq!['ൺ'], seq!['n']),
            (seq!['ൻ'], seq!['n']),
            (seq!['ർ'], seq!['r']),
            (seq!['ൿ'], seq!['k']),
        ],
        modifiers: seq![
            (seq!['ു', VIRAMA], seq!['u']),
            (seq!['ാ'], seq!['a', 'a']),
            (seq!['ി'], seq!['i']),
            (seq!['ീ'], seq!['e', 'e']),
            (seq!['ു'], seq!['u']),
            (seq!['ൂ'], seq!['o', 'o']),
            (seq!['ൃ'], seq!['r', 'u']),
            (seq!['െ'], seq!['e']),
            (seq!['േ'], seq!['e']),
            (seq!['ൈ'], seq!['y']),
            (seq!['ൊ'], seq!['o']),
            (seq!['ോ'], seq!['o']),
            (seq!['ൌ'], seq!['o', 'u']),
            (seq!['ൗ'], seq!['a', 'u']),
            (seq!['ഃ'], seq!['a']),
        ],
    }
}

/// Malayalam to Latin transliterator.
pub struct CharacterMap {
    vowels: ExecTable,
    compounds: ExecTable,
    consonants: ExecTable,
    chill: ExecTable,
    modifiers: ExecTable,
}

impl View for CharacterMap {
    type V = GlyphTables;

    closed spec fn view(&self) -> GlyphTables {
        GlyphTables {
            vowels: table_view(self.vowels@),
            compounds: table_view(self.compounds@),
            consonants: table_view(self.consonants@),
            chillu: table_view(self.chill@),
            modifiers: table_view(self.modifiers@),
        }
    }
}

impl CharacterMap {
    /// Builds the transliterator and its glyph tables.
    pub fn init() -> (r: CharacterMap)
        ensures
            r@ == glyph_tables(),
            tables_wf(r@),
    {
        let vowels = vec![
            (vec!['അ'], vec!['a']),
            (vec!['ആ'], vec!['a', 'a']),
            (vec!['ഇ'], vec!['i']),
            (vec!['ഈ'], vec!['e', 'e']),
            (vec!['ഉ'], vec!['u']),
            (vec!['ഊ'], vec!['o', 'o']),
            (vec!['ഋ'], vec!['r', 'u']),
            (vec!['എ'], vec!['e']),
            (vec!['ഏ'], vec!['e']),
            (vec!['ഐ'], vec!['a', 'i']),
            (vec!['ഒ'], vec!['o']),
            (vec!['ഓ'], vec!['o']),
            (vec!['ഔ'], vec!['a', 'u']),
        ];
        let compounds = vec![
            (vec!['ന', VIRAMA, 'ത', VIRAMA, 'യ'], vec!['n', 't', 'h', 'y']),
            (vec!['ക', VIRAMA, 'ക'], vec!['k', 'k']),
            (vec!['ഗ', VIRAMA, 'ഗ'], vec!['g', 'g']),
            (vec!['ങ', VIRAMA, 'ങ'], vec!['n', 'g']),
            (vec!['ച', VIRAMA, 'ച'], vec!['c', 'c', 'h']),
            (vec!['ജ', VIRAMA, 'ജ'], vec!['j', 'j']),
            (vec!['ഞ', VIRAMA, 'ഞ'], vec!['n', 'j']),
            (vec!['ട', VIRAMA, 'ട'], vec!['t', 't']),
            (vec!['ണ', VIRAMA, 'ണ'], vec!['n', 'n']),
            (vec!['ത', VIRAMA, 'ത'], vec!['t', 't', 'h']),
            (vec!['ദ', VIRAMA, 'ദ'], vec!['d', 'd', 'h']),
            (vec!['ദ', VIRAMA, 'ധ'], vec!['d', 'd', 'h']),
            (vec!['ന', VIRAMA, 'ന'], vec!['n', 'n']),
            (vec!['ന', VIRAMA, 'ത'], vec!['n', 't', 'h']),
            (vec!['ങ', VIRAMA, 'ക'], vec!['n', 'k']),
            (vec!['ണ', VIRAMA, 'ട'], vec!['n', 'd']),
            (vec!['ബ', VIRAMA, 'ബ'], vec!['b', 'b']),
            (vec!['പ', VIRAMA, 'പ'], vec!['p', 'p']),
            (vec!['മ', VIRAMA, 'മ'], vec!['m', 'm']),
            (vec!['യ', VIRAMA, 'യ'], vec!['y', 'y']),
            (vec!['ല', VIRAMA, 'ല'], vec!['l', 'l']),
            (vec!['വ', VIRAMA, 'വ'], vec!['v', 'v']),
            (vec!['ശ', VIRAMA, 'ശ'], vec!['s', 'h']),
            (vec!['സ', VIRAMA, 'സ'], vec!['s']),
            (vec!['ക', VIRAMA, 'സ'], vec!['k', 's']),
            (vec!['ഞ', VIRAMA, 'ച'], vec!['n', 'c', 'h']),
            (vec!['ക', VIRAMA, 'ഷ'], vec!['k', 's', 'h']),
            (vec!['മ', VIRAMA, 'പ'], vec!['m', 'p']),
            (vec!['റ', VIRAMA, 'റ'], vec!['t', 't']),
            (vec!['ന', VIRAMA, 'റ'], vec!['n', 't']),
        ];
        let consonants = vec![
            (vec!['ക'], vec!['k']),
            (vec!['ഖ'], vec!['k', 'h']),
            (vec!['ഗ'], vec!['g']),
            (vec!['ഘ'], vec!['g', 'h']),
            (vec!['ങ'], vec!['n', 'g']),
            (vec!['ച'], vec!['c', 'h']),
            (vec!['ഛ'], vec!['c', 'h', 'h']),
            (vec!['ജ'], vec!['j']),
            (vec!['ഝ'], vec!['j', 'h']),
            (vec!['ഞ'], vec!['n', 'j']),
            (vec!['ട'], vec!['t']),
            (vec!['ഠ'], vec!['d', 't']),
            (vec!['ഡ'], vec!['d']),
            (vec!['ഢ'], vec!['d', 'd']),
            (vec!['ണ'], vec!['n']),
            (vec!['ത'], vec!['t', 'h']),
            (vec!['ഥ'], vec!['t', 'h']),
            (vec!['ദ'], vec!['d']),
            (vec!['ധ'], vec!['d', 'h']),
            (vec!['ന'], vec!['n']),
            (vec!['പ'], vec!['p']),
            (vec!['ഫ'], vec!['p', 'h']),
            (vec!['ബ'], vec!['b']),
            (vec!['ഭ'], vec!['b', 'h']),
            (vec!['മ'], vec!['m']),
            (vec!['യ'], vec!['y']),
            (vec!['ര'], vec!['r']),
            (vec!['ല'], vec!['l']),
            (vec!['വ'], vec!['v']),
            (vec!['ശ'], vec!['s', 'h']),
            (vec!['ഷ'], vec!['s', 'h']),
            (vec!['സ'], vec!['s']),
            (vec!['ഹ'], vec!['h']),
            (vec!['ള'], vec!['l']),
            (vec!['ഴ'], vec!['z', 'h']),
            (vec!['റ'], vec!['r']),
        ];
        let chill = vec![
            (vec!['ൽ'], vec!['l']),
            (vec!['ൾ'], vec!['l']),
            (vec!['ൺ'], vec!['n']),
            (vec!['ൻ'], vec!['n']),
            (vec!['ർ'], vec!['r']),
            (vec!['ൿ'], vec!['k']),
        ];
        let modifiers = vec![
            (vec!['ു', VIRAMA], vec!['u']),
            (vec!['ാ'], vec!['a', 'a']),
            (vec!['ി'], vec!['i']),
            (vec!['ീ'], vec!['e', 'e']),
            (vec!['ു'], vec!['u']),
            (vec!['ൂ'], vec!['o', 'o']),
            (vec!['ൃ'], vec!['r', 'u']),
            (vec!['െ'], vec!['e']),
            (vec!['േ'], vec!['e']),
            (vec!['ൈ'], vec!['y']),
            (vec!['ൊ'], vec!['o']),
            (vec!['ോ'], vec!['o']),
            (vec!['ൌ'], vec!['o', 'u']),
            (vec!['ൗ'], vec!['a', 'u']),
            (vec!['ഃ'], vec!['a']),
        ];
        let r = CharacterMap { vowels, compounds, consonants, chill, modifiers };
        proof {
            assert(r@.vowels =~~= glyph_tables().vowels);
            assert(r@.compounds =~~= glyph_tables().compounds);
            assert(r@.consonants =~~= glyph_tables().consonants);
            assert(r@.chillu =~~= glyph_tables().chillu);
            assert(r@.modifiers =~~= glyph_tables().modifiers);
        }
        r
    }

    /// The table of independent vowels.
    pub fn vowels(&self) -> (r: &ExecTable)
        ensures
            table_view(r@) == self@.vowels,
    {
        &self.vowels
    }

    /// The table of compound (geminated) consonants, longest first.
    pub fn compounds(&self) -> (r: &ExecTable)
        ensures
            table_view(r@) == self@.compounds,
    {
        &self.compounds
    }

    /// The table of consonants.
    pub fn consonants(&self) -> (r: &ExecTable)
        ensures
            table_view(r@) == self@.consonants,
    {
        &self.consonants
    }

    /// The table of chillu letters.
    pub fn chillu(&self) -> (r: &ExecTable)
        ensures
            table_view(r@) == self@.chillu,
    {
        &self.chill
    }

    /// The table of dependent vowel signs, longest first.
    pub fn modifiers(&self) -> (r: &ExecTable)
        ensures
            table_view(r@) == self@.modifiers,
    {
        &self.modifiers
    }
}

/// Whether `c` lies in the Malayalam block.
pub open spec fn is_malayalam(c: char) -> bool {
    0x0D00 <= c as u32 <= 0x0D7F
}

/// Every key is non-empty and made of Malayalam characters.
pub open spec fn keys_malayalam(g: Table) -> bool {
    forall|i: int, k: int|
        0 <= i < g.len() && 0 <= k < g[i].0.len() ==> #[trigger] is_malayalam(g[i].0[k])
}

/// Every key is non-empty and starts with a character of `lo..=hi`.
pub open spec fn keys_start_within(g: Table, lo: u32, hi: u32) -> bool {
    forall|i: int| 0 <= i < g.len() ==> #[trigger] g[i].0.len() > 0 && lo <= g[i].0[0] as u32 <= hi
}

/// Every rendering is non-empty ASCII.
pub open spec fn latin_ascii(g: Table) -> bool {
    &&& forall|i: int, k: int|
        0 <= i < g.len() && 0 <= k < g[i].1.len() ==> (#[trigger] g[i].1[k]) as u32 <= 0x7F
    &&& forall|i: int| 0 <= i < g.len() ==> (#[trigger] g[i].1).len() > 0
}

/// The vowel signs: first the closing "u" sign (U and virama), then single
/// characters, none of them a consonant letter.
pub open spec fn signs_wf(m: Table) -> bool {
    &&& m.len() > 0
    &&& m[0].0 == seq![U_SIGN, VIRAMA]
    &&& forall|i: int| 1 <= i < m.len() ==> (#[trigger] m[i]).0.len() == 1
    &&& forall|i: int, k: int|
        0 <= i < m.len() && 0 <= k < m[i].0.len() ==> !(0x0D15 <= (#[trigger] m[i].0[k]) as u32
            <= 0x0D39)
}

/// What the rewriting rules rely on of the tables: keys of Malayalam
/// characters (consonants and compounds starting with a consonant letter,
/// vowels with a vowel letter, chillu with a chillu letter, no vowel sign
/// with the virama), compounds of at least three characters, and Latin
/// renderings, compounds and vowel signs longest first, no key twice in a
/// table.
pub open spec fn tables_wf(g: GlyphTables) -> bool {
    &&& keys_malayalam(g.vowels) && latin_ascii(g.vowels)
    &&& keys_malayalam(g.compounds) && latin_ascii(g.compounds)
    &&& keys_malayalam(g.consonants) && latin_ascii(g.consonants)
    &&& keys_malayalam(g.chillu) && latin_ascii(g.chillu)
    &&& keys_malayalam(g.modifiers) && latin_ascii(g.modifiers)
    &&& keys_start_within(g.vowels, 0x0D05, 0x0D14)
    &&& keys_start_within(g.compounds, 0x0D15, 0x0D39)
    &&& keys_start_within(g.consonants, 0x0D15, 0x0D39)
    &&& keys_start_within(g.chillu, 0x0D7A, 0x0D7F)
    &&& keys_start_within(g.modifiers, 0x0D00, 0x0D7F)
    &&& forall|i: int| 0 <= i < g.modifiers.len() ==> (#[trigger] g.modifiers[i]).0[0] != VIRAMA
    &&& signs_wf(g.modifiers)
    &&& forall|i: int| 0 <= i < g.compounds.len() ==> (#[trigger] g.compounds[i]).0.len() >= 3
    &&& longest_first(g.compounds)
    &&& longest_first(g.modifiers)
    &&& unique_keys(g.vowels) && unique_keys(g.compounds) && unique_keys(g.consonants)
    &&& unique_keys(g.chillu) && unique_keys(g.modifiers)
}

/// No key occurs twice.
pub open spec fn unique_keys(g: Table) -> bool {
    forall|i: int, j: int| 0 <= i < j < g.len() ==> (#[trigger] g[i]).0 != (#[trigger] g[j]).0
}

/// Keys come in order of non-increasing length, so that no key shadows a
/// longer one that it begins.
pub open spec fn longest_first(g: Table) -> bool {
    forall|i: int, j: int| 0 <= i < j < g.len() ==> (#[trigger] g[i]).0.len() >= (#[trigger] g[j]).0.len()
}

} // verus!
