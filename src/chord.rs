//! Key chords: the canonical value of a text such as `"Ctrl+Alt+U"`.
use vstd::prelude::*;

verus! {

/// The modifier keys held down together with a chord's key.
#[derive(Clone, Copy, Debug, PartialEq, Eq, Structural, Hash)]
pub struct Modifiers {
    pub ctrl: bool,
    pub alt: bool,
    pub shift: bool,
    pub super_key: bool,
}

/// The one physical key of a chord.
#[derive(Clone, Copy, Debug, PartialEq, Eq, Structural, Hash)]
pub enum KeyCode {
    /// A letter key, held as its upper-case character `'A'..='Z'`.
    Letter(char),
    /// A digit key, held as its character `'0'..='9'`.
    Digit(char),
    Space,
    Enter,
    Tab,
    Escape,
}

/// A canonical keyboard combination: a set of modifiers and exactly one key.
#[derive(Clone, Copy, Debug, PartialEq, Eq, Structural, Hash)]
pub struct Chord {
    pub modifiers: Modifiers,
    pub key: KeyCode,
}

/// Why a text names no chord.
#[derive(Clone, Copy, Debug, PartialEq, Eq, Structural)]
pub enum ParseError {
    /// No segment names a key.
    MissingKey,
    /// A segment is neither a modifier nor a known key.
    InvalidKey,
    /// Two or more segments name a key.
    AmbiguousKey,
}

/// One of the four modifier flags.
#[derive(Clone, Copy, Debug, PartialEq, Eq, Structural)]
pub enum ModifierKey {
    Ctrl,
    Alt,
    Shift,
    Super,
}

/// What one normalised segment of a chord text stands for.
#[derive(Clone, Copy, Debug, PartialEq, Eq, Structural)]
pub enum Token {
    Modifier(ModifierKey),
    Key(KeyCode),
    Unknown,
}

impl KeyCode {
    pub open spec fn is_valid(self) -> bool {
        match self {
            KeyCode::Letter(c) => 'A' <= c <= 'Z',
            KeyCode::Digit(c) => '0' <= c <= '9',
            _ => true,
        }
    }
}

/// The meaning of a segment that has already been trimmed and upper-cased.
pub open spec fn token_of(t: Seq<char>) -> Token {
    if t == "CTRL"@ || t == "CONTROL"@ {
        Token::Modifier(ModifierKey::Ctrl)
    } else if t == "ALT"@ {
        Token::Modifier(ModifierKey::Alt)
    } else if t == "SHIFT"@ {
        Token::Modifier(ModifierKey::Shift)
    } else if t == "SUPER"@ || t == "CMD"@ || t == "WINDOWS"@ {
        Token::Modifier(ModifierKey::Super)
    } else if t == "SPACE"@ {
        Token::Key(KeyCode::Space)
    } else if t == "ENTER"@ {
        Token::Key(KeyCode::Enter)
    } else if t == "TAB"@ {
        Token::Key(KeyCode::Tab)
    } else if t == "ESC"@ || t == "ESCAPE"@ {
        Token::Key(KeyCode::Escape)
    } else if t.len() == 1 && 'A' <= t[0] <= 'Z' {
        Token::Key(KeyCode::Letter(t[0]))
    } else if t.len() == 1 && '0' <= t[0] <= '9' {
        Token::Key(KeyCode::Digit(t[0]))
    } else {
        Token::Unknown
    }
}

/// The keys that the tokens name, in order.
pub open spec fn keys_named(toks: Seq<Seq<char>>) -> Seq<KeyCode>
    decreases toks.len(),
{
    if toks.len() == 0 {
        Seq::empty()
    } else {
        let before = keys_named(toks.drop_last());
        match token_of(toks.last()) {
            Token::Key(k) => before.push(k),
            _ => before,
        }
    }
}

pub open spec fn names_modifier(toks: Seq<Seq<char>>, m: ModifierKey) -> bool {
    exists|i: int| 0 <= i < toks.len() && token_of(#[trigger] toks[i]) == Token::Modifier(m)
}

/// Every modifier that some token names; repeating one changes nothing.
pub open spec fn modifiers_named(toks: Seq<Seq<char>>) -> Modifiers {
    Modifiers {
        ctrl: names_modifier(toks, ModifierKey::Ctrl),
        alt: names_modifier(toks, ModifierKey::Alt),
        shift: names_modifier(toks, ModifierKey::Shift),
        super_key: names_modifier(toks, ModifierKey::Super),
    }
}

pub open spec fn has_unknown(toks: Seq<Seq<char>>) -> bool {
    exists|i: int| 0 <= i < toks.len() && token_of(#[trigger] toks[i]) == Token::Unknown
}

/// The chord that a sequence of normalised tokens denotes.
pub open spec fn chord_of_tokens(toks: Seq<Seq<char>>) -> Result<Chord, ParseError> {
    if has_unknown(toks) {
        Err(ParseError::InvalidKey)
    } else if keys_named(toks).len() == 0 {
        Err(ParseError::MissingKey)
    } else if keys_named(toks).len() > 1 {
        Err(ParseError::AmbiguousKey)
    } else {
        Ok(Chord { modifiers: modifiers_named(toks), key: keys_named(toks)[0] })
    }
}

/// The pieces of `s` between its `'+'` characters; there is always at least one.
pub open spec fn segments(s: Seq<char>) -> Seq<Seq<char>>
    decreases s.len(),
{
    if s.len() == 0 {
        seq![Seq::empty()]
    } else {
        let init = segments(s.drop_last());
        if s.last() == '+' {
            init.push(Seq::empty())
        } else {
            init.update(init.len() - 1, init.last().push(s.last()))
        }
    }
}

/// Name for what `str::trim` returns.
pub uninterp spec fn trimmed(s: Seq<char>) -> Seq<char>;

/// Name for what `str::to_uppercase` returns.
pub uninterp spec fn uppercased(s: Seq<char>) -> Seq<char>;

pub open spec fn normalized(seg: Seq<char>) -> Seq<char> {
    uppercased(trimmed(seg))
}

pub open spec fn tokens_of(text: Seq<char>) -> Seq<Seq<char>> {
    segments(text).map_values(|seg: Seq<char>| normalized(seg))
}

/// The result of parsing `text`.
pub open spec fn parse_spec(text: Seq<char>) -> Result<Chord, ParseError> {
    chord_of_tokens(tokens_of(text))
}

/// Relies on `str::trim`: the result depends on the characters alone.
#[verifier::external_body]
fn trim_text(s: &str) -> (r: &str)
    ensures
        r@ == trimmed(s@),
{
    s.trim()
}

/// Relies on `str::to_uppercase`: the result depends on the characters alone.
#[verifier::external_body]
fn upper_text(s: &str) -> (r: String)
    ensures
        r@ == uppercased(s@),
{
    s.to_uppercase()
}

/// Whether two texts hold the same characters.
pub fn same_text(a: &str, b: &str) -> (r: bool)
    ensures
        r == (a@ == b@),
{
    let n = a.unicode_len();
    if n != b.unicode_len() {
        return false;
    }
    let mut i: usize = 0;
    while i < n
        invariant
            n == a@.len(),
            n == b@.len(),
            i <= n,
            forall|j: int| 0 <= j < i ==> a@[j] == b@[j],
        decreases n - i,
    {
        if a.get_char(i) != b.get_char(i) {
            return false;
        }
        i += 1;
    }
    assert(a@ =~= b@);
    true
}

/// What a trimmed, upper-cased segment stands for.
pub fn classify_token(t: &str) -> (r: Token)
    ensures
        r == token_of(t@),
{
    if same_text(t, "CTRL") || same_text(t, "CONTROL") {
        Token::Modifier(ModifierKey::Ctrl)
    } else if same_text(t, "ALT") {
        Token::Modifier(ModifierKey::Alt)
    } else if same_text(t, "SHIFT") {
        Token::Modifier(ModifierKey::Shift)
    } else if same_text(t, "SUPER") || same_text(t, "CMD") || same_text(t, "WINDOWS") {
        Token::Modifier(ModifierKey::Super)
    } else if same_text(t, "SPACE") {
        Token::Key(KeyCode::Space)
    } else if same_text(t, "ENTER") {
        Token::Key(KeyCode::Enter)
    } else if same_text(t, "TAB") {
        Token::Key(KeyCode::Tab)
    } else if same_text(t, "ESC") || same_text(t, "ESCAPE") {
        Token::Key(KeyCode::Escape)
    } else if t.unicode_len() == 1 {
        let c = t.get_char(0);
        if 'A' <= c && c <= 'Z' {
            Token::Key(KeyCode::Letter(c))
        } else if '0' <= c && c <= '9' {
            Token::Key(KeyCode::Digit(c))
        } else {
            Token::Unknown
        }
    } else {
        Token::Unknown
    }
}

/// Splits `text` at each `'+'`, keeping empty pieces.
pub fn split_on_plus(text: &str) -> (r: Vec<&str>)
    ensures
        r@.map_values(|p: &str| p@) == segments(text@),
{
    let n = text.unicode_len();
    let mut pieces: Vec<&str> = Vec::new();
    let mut start: usize = 0;
    let mut i: usize = 0;
    proof {
        assert(text@.take(0) =~= Seq::<char>::empty());
        assert(text@.subrange(0, 0) =~= Seq::<char>::empty());
        assert(pieces@.map_values(|p: &str| p@).push(text@.subrange(0, 0)) =~= segments(
            text@.take(0),
        ));
    }
    while i < n
        invariant
            n == text@.len(),
            start <= i <= n,
            pieces@.map_values(|p: &str| p@).push(text@.subrange(start as int, i as int))
                == segments(text@.take(i as int)),
        decreases n - i,
    {
        let c = text.get_char(i);
        proof {
            assert(text@.take(i + 1).drop_last() =~= text@.take(i as int));
            assert(text@.take(i + 1).last() == c);
        }
        if c == '+' {
            let piece = text.substring_char(start, i);
            proof {
                assert(text@.subrange((i + 1) as int, (i + 1) as int) =~= Seq::<char>::empty());
            }
            let ghost before = pieces@.map_values(|p: &str| p@);
            pieces.push(piece);
            proof {
                assert(pieces@.map_values(|p: &str| p@) =~= before.push(piece@));
            }
            start = i + 1;
        } else {
            proof {
                assert(text@.subrange(start as int, i + 1) =~= text@.subrange(
                    start as int,
                    i as int,
                ).push(c));
            }
        }
        i += 1;
    }
    let last = text.substring_char(start, n);
    let ghost before = pieces@.map_values(|p: &str| p@);
    pieces.push(last);
    proof {
        assert(pieces@.map_values(|p: &str| p@) =~= before.push(last@));
        assert(text@.take(n as int) =~= text@);
    }
    pieces
}

/// The chord that already trimmed and upper-cased segments denote.
pub fn chord_from_tokens(toks: &Vec<String>) -> (r: Result<Chord, ParseError>)
    ensures
        r == chord_of_tokens(toks@.map_values(|t: String| t@)),
        r is Ok ==> r->Ok_0.key.is_valid(),
{
    let ghost ts = toks@.map_values(|t: String| t@);
    let mut mods = Modifiers { ctrl: false, alt: false, shift: false, super_key: false };
    let mut first_key: Option<KeyCode> = None;
    let mut key_count: usize = 0;
    let mut unknown = false;
    let mut i: usize = 0;
    proof {
        assert(ts.take(0) =~= Seq::<Seq<char>>::empty());
    }
    while i < toks.len()
        invariant
            ts == toks@.map_values(|t: String| t@),
            i <= toks.len(),
            mods == modifiers_named(ts.take(i as int)),
            unknown == has_unknown(ts.take(i as int)),
            key_count == keys_named(ts.take(i as int)).len(),
            key_count <= i,
            key_count > 0 ==> first_key == Some(keys_named(ts.take(i as int))[0]),
            forall|j: int| 0 <= j < key_count ==> (#[trigger] keys_named(ts.take(i as int))[j]).is_valid(),
        decreases toks.len() - i,
    {
        let tok = classify_token(toks[i].as_str());
        let ghost prev = ts.take(i as int);
        let ghost next = ts.take(i + 1);
        proof {
            assert(next.drop_last() =~= prev);
            assert(next.last() == ts[i as int]);
            assert(forall|j: int| 0 <= j < i ==> next[j] == prev[j]);
        }
        match tok {
            Token::Modifier(ModifierKey::Ctrl) => {
                mods.ctrl = true;
            },
            Token::Modifier(ModifierKey::Alt) => {
                mods.alt = true;
            },
            Token::Modifier(ModifierKey::Shift) => {
                mods.shift = true;
            },
            Token::Modifier(ModifierKey::Super) => {
                mods.super_key = true;
            },
            Token::Key(k) => {
                if key_count == 0 {
                    first_key = Some(k);
                }
                key_count += 1;
            },
            Token::Unknown => {
                unknown = true;
            },
        }
        proof {
            assert(token_of(next[i as int]) == tok);
            assert(mods == modifiers_named(next));
            assert(unknown == has_unknown(next));
        }
        i += 1;
    }
    proof {
        assert(ts.take(toks.len() as int) =~= ts);
    }
    if unknown {
        Err(ParseError::InvalidKey)
    } else if key_count == 0 {
        Err(ParseError::MissingKey)
    } else if key_count > 1 {
        Err(ParseError::AmbiguousKey)
    } else {
        match first_key {
            Some(k) => Ok(Chord { modifiers: mods, key: k }),
            None => Err(ParseError::MissingKey),
        }
    }
}

impl Chord {
    /// Parses a chord text: the pieces between `'+'` are trimmed and
    /// upper-cased, modifier names may repeat, and exactly one piece names a key.
    pub fn parse(text: &str) -> (r: Result<Chord, ParseError>)
        ensures
            r == parse_spec(text@),
            r is Ok ==> r->Ok_0.key.is_valid(),
    {
        let pieces = split_on_plus(text);
        let mut toks: Vec<String> = Vec::new();
        let mut i: usize = 0;
        while i < pieces.len()
            invariant
                pieces@.map_values(|p: &str| p@) == segments(text@),
                i <= pieces.len(),
                toks@.map_values(|t: String| t@) == segments(text@).take(i as int).map_values(
                    |seg: Seq<char>| normalized(seg),
                ),
            decreases pieces.len() - i,
        {
            let tok = upper_text(trim_text(pieces[i]));
            let ghost before = toks@.map_values(|t: String| t@);
            toks.push(tok);
            proof {
                let segs = segments(text@);
                assert(pieces@.map_values(|p: &str| p@)[i as int] == pieces@[i as int]@);
                assert(tok@ == normalized(segs[i as int]));
                assert(segs.take(i + 1).map_values(|seg: Seq<char>| normalized(seg)) =~= segs.take(
                    i as int,
                ).map_values(|seg: Seq<char>| normalized(seg)).push(normalized(segs[i as int])));
                assert(toks@.map_values(|t: String| t@) =~= segments(text@).take(i + 1).map_values(
                    |seg: Seq<char>| normalized(seg),
                ));
            }
            i += 1;
        }
        proof {
            assert(segments(text@).take(pieces.len() as int) =~= segments(text@));
        }
        chord_from_tokens(&toks)
    }
}

/// Tokens that stand, one for one, for the same things name the same keys.
proof fn lemma_keys_named_by_meaning(a: Seq<Seq<char>>, b: Seq<Seq<char>>)
    requires
        a.len() == b.len(),
        forall|i: int| 0 <= i < a.len() ==> token_of(#[trigger] a[i]) == token_of(b[i]),
    ensures
        keys_named(a) == keys_named(b),
    decreases a.len(),
{
    if a.len() > 0 {
        let (a0, b0) = (a.drop_last(), b.drop_last());
        assert forall|i: int| 0 <= i < a0.len() implies token_of(#[trigger] a0[i]) == token_of(
            b0[i],
        ) by {
            assert(a0[i] == a[i] && b0[i] == b[i]);
        }
        lemma_keys_named_by_meaning(a0, b0);
        assert(token_of(a.last()) == token_of(b.last()));
    }
}

/// Chord texts whose pieces stand, one for one, for the same modifier or key
/// parse alike: letter case, blanks around a piece, and the spelling of a
/// modifier (`Control` or `Ctrl`, `Cmd` or `Windows` or `Super`) do not matter.
pub proof fn lemma_parse_ignores_spelling(t1: Seq<char>, t2: Seq<char>)
    requires
        segments(t1).len() == segments(t2).len(),
        forall|i: int|
            0 <= i < segments(t1).len() ==> token_of(normalized(#[trigger] segments(t1)[i]))
                == token_of(normalized(segments(t2)[i])),
    ensures
        parse_spec(t1) == parse_spec(t2),
{
    let (a, b) = (tokens_of(t1), tokens_of(t2));
    assert forall|i: int| 0 <= i < a.len() implies token_of(#[trigger] a[i]) == token_of(b[i]) by {
        assert(a[i] == normalized(segments(t1)[i]));
        assert(b[i] == normalized(segments(t2)[i]));
    }
    lemma_keys_named_by_meaning(a, b);
    assert(has_unknown(a) == has_unknown(b)) by {
        if has_unknown(a) {
            let i = choose|i: int| 0 <= i < a.len() && token_of(#[trigger] a[i]) == Token::Unknown;
            assert(token_of(b[i]) == Token::Unknown);
        }
        if has_unknown(b) {
            let i = choose|i: int| 0 <= i < b.len() && token_of(#[trigger] b[i]) == Token::Unknown;
            assert(token_of(a[i]) == Token::Unknown);
        }
    }
    assert forall|m: ModifierKey| names_modifier(a, m) == names_modifier(b, m) by {
        if names_modifier(a, m) {
            let i = choose|i: int|
                0 <= i < a.len() && token_of(#[trigger] a[i]) == Token::Modifier(m);
            assert(token_of(b[i]) == Token::Modifier(m));
        }
        if names_modifier(b, m) {
            let i = choose|i: int|
                0 <= i < b.len() && token_of(#[trigger] b[i]) == Token::Modifier(m);
            assert(token_of(a[i]) == Token::Modifier(m));
        }
    }
    assert(modifiers_named(a) == modifiers_named(b));
}

} // verus!
