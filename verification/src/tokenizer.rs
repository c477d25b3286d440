//! The scanner: from characters to tokens, one token per call.

use crate::token::{count_points, is_digit, is_numeral, Token, TokenView};
use vstd::prelude::*;

verus! {

/// The token that a single character spells by itself, if it spells one.
pub open spec fn symbol(c: char) -> Option<TokenView> {
    match c {
        '@' => Some(TokenView::Ans),
        '+' => Some(TokenView::Add),
        '-' => Some(TokenView::Subtract),
        '*' => Some(TokenView::Multiply),
        '/' => Some(TokenView::Divide),
        '^' => Some(TokenView::Caret),
        '(' => Some(TokenView::LeftParen),
        ')' => Some(TokenView::RightParen),
        '|' => Some(TokenView::Bar),
        '!' => Some(TokenView::ExclamationMark),
        ',' => Some(TokenView::Comma),
        '%' => Some(TokenView::Modulo),
        '\u{03c0}' => Some(TokenView::Pi),
        '\u{230a}' => Some(TokenView::LeftFloor),
        '\u{230b}' => Some(TokenView::RightFloor),
        '\u{2308}' => Some(TokenView::LeftCeiling),
        '\u{2309}' => Some(TokenView::RightCeiling),
        '\u{00b2}' => Some(TokenView::Pow2),
        '\u{00b3}' => Some(TokenView::Pow3),
        '\u{00b0}' => Some(TokenView::DegToRad),
        _ => None,
    }
}

/// Where the run of digits and decimal points that covers position `i` ends:
/// the first position from `i` on that holds neither.
pub open spec fn numeral_end(s: Seq<char>, i: int) -> int
    decreases s.len() - i,
{
    if 0 <= i < s.len() && (is_digit(s[i]) || s[i] == '.') {
        numeral_end(s, i + 1)
    } else {
        i
    }
}

/// The numeric literal that starts at `i`, where `s[i]` is a digit. The
/// literal is the whole run of digits and points. It is no token if the run
/// holds a second point, or if an opening parenthesis follows it directly.
pub open spec fn scan_numeral(s: Seq<char>, i: int) -> Option<(TokenView, int)> {
    let end = numeral_end(s, i);
    let text = s.subrange(i, end);
    if count_points(text) > 1 || (end < s.len() && s[end] == '(') {
        None
    } else {
        Some((TokenView::Num(text), end))
    }
}

/// One entry of the scanner's vocabulary: a word, whether it only counts when
/// an opening parenthesis follows it, and the token it stands for.
pub struct Word {
    pub text: Seq<char>,
    pub call: bool,
    pub token: TokenView,
}

/// The number of entries in the vocabulary.
pub const VOCABULARY_SIZE: usize = 36;

/// The vocabulary, longest words first, so that the first entry that matches
/// is the longest one that does.
pub open spec fn vocabulary(k: int) -> Word {
    if k == 0 {
        Word { text: "truncate"@, call: true, token: TokenView::Truncate }
    } else if k == 1 {
        Word { text: "signum"@, call: true, token: TokenView::Sign }
    } else if k == 2 {
        Word { text: "arsinh"@, call: true, token: TokenView::Arsinh }
    } else if k == 3 {
        Word { text: "arcosh"@, call: true, token: TokenView::Arcosh }
    } else if k == 4 {
        Word { text: "artanh"@, call: true, token: TokenView::Artanh }
    } else if k == 5 {
        Word { text: "atan2"@, call: true, token: TokenView::Atan2 }
    } else if k == 6 {
        Word { text: "floor"@, call: true, token: TokenView::Floor }
    } else if k == 7 {
        Word { text: "round"@, call: true, token: TokenView::Round }
    } else if k == 8 {
        Word { text: "trunc"@, call: true, token: TokenView::Truncate }
    } else if k == 9 {
        Word { text: "asinh"@, call: true, token: TokenView::Arsinh }
    } else if k == 10 {
        Word { text: "acosh"@, call: true, token: TokenView::Arcosh }
    } else if k == 11 {
        Word { text: "atanh"@, call: true, token: TokenView::Artanh }
    } else if k == 12 {
        Word { text: "asin"@, call: true, token: TokenView::Asin }
    } else if k == 13 {
        Word { text: "acos"@, call: true, token: TokenView::Acos }
    } else if k == 14 {
        Word { text: "atan"@, call: true, token: TokenView::Atan }
    } else if k == 15 {
        Word { text: "sinh"@, call: true, token: TokenView::Sinh }
    } else if k == 16 {
        Word { text: "cosh"@, call: true, token: TokenView::Cosh }
    } else if k == 17 {
        Word { text: "tanh"@, call: true, token: TokenView::Tanh }
    } else if k == 18 {
        Word { text: "ceil"@, call: true, token: TokenView::Ceil }
    } else if k == 19 {
        Word { text: "sqrt"@, call: true, token: TokenView::Sqrt }
    } else if k == 20 {
        Word { text: "exp2"@, call: true, token: TokenView::Exp2 }
    } else if k == 21 {
        Word { text: "sign"@, call: true, token: TokenView::Sign }
    } else if k == 22 {
        Word { text: "abs"@, call: true, token: TokenView::Abs }
    } else if k == 23 {
        Word { text: "cos"@, call: true, token: TokenView::Cos }
    } else if k == 24 {
        Word { text: "sin"@, call: true, token: TokenView::Sin }
    } else if k == 25 {
        Word { text: "tan"@, call: true, token: TokenView::Tan }
    } else if k == 26 {
        Word { text: "exp"@, call: true, token: TokenView::Exp }
    } else if k == 27 {
        Word { text: "log"@, call: true, token: TokenView::Log }
    } else if k == 28 {
        Word { text: "min"@, call: true, token: TokenView::Min }
    } else if k == 29 {
        Word { text: "max"@, call: true, token: TokenView::Max }
    } else if k == 30 {
        Word { text: "pow"@, call: true, token: TokenView::Pow }
    } else if k == 31 {
        Word { text: "sgn"@, call: true, token: TokenView::Sign }
    } else if k == 32 {
        Word { text: "rad"@, call: false, token: TokenView::RadToDeg }
    } else if k == 33 {
        Word { text: "ln"@, call: true, token: TokenView::Ln }
    } else if k == 34 {
        Word { text: "pi"@, call: false, token: TokenView::Pi }
    } else {
        Word { text: "e"@, call: false, token: TokenView::E }
    }
}

/// Whether the characters of `word` stand in `s` from position `i` on.
pub open spec fn spelled_at(s: Seq<char>, i: int, word: Seq<char>) -> bool {
    &&& 0 <= i
    &&& i + word.len() <= s.len()
    &&& s.subrange(i, i + word.len()) == word
}

/// Whether the vocabulary entry `w` matches at position `i`: its word stands
/// there and, for the name of a function, the opening parenthesis of the call
/// comes next. The parenthesis is looked at, not taken.
pub open spec fn word_matches(s: Seq<char>, i: int, w: Word) -> bool {
    &&& spelled_at(s, i, w.text)
    &&& w.call ==> followed_by_call(s, i + w.text.len())
}

/// Whether the character at position `i` opens the argument list of a call.
pub open spec fn followed_by_call(s: Seq<char>, i: int) -> bool {
    0 <= i < s.len() && s[i] == '('
}

/// The first vocabulary entry from index `k` on that matches at position `i`,
/// as its token and the position behind its word.
pub open spec fn lookup(s: Seq<char>, i: int, k: int) -> Option<(TokenView, int)>
    decreases VOCABULARY_SIZE - k,
{
    if k < 0 || k >= VOCABULARY_SIZE {
        None
    } else if word_matches(s, i, vocabulary(k)) {
        Some((vocabulary(k).token, i + vocabulary(k).text.len()))
    } else {
        lookup(s, i, k + 1)
    }
}

/// The token that starts at position `i` of `s`, together with the position
/// of the first character behind it; `None` where the text at `i` spells no
/// token. At the end of the input the token is `Eof`, any number of times.
pub open spec fn scan(s: Seq<char>, i: int) -> Option<(TokenView, int)> {
    if i < 0 || i >= s.len() {
        Some((TokenView::Eof, i))
    } else {
        match symbol(s[i]) {
            Some(token) => Some((token, i + 1)),
            None => if is_digit(s[i]) {
                scan_numeral(s, i)
            } else {
                lookup(s, i, 0)
            },
        }
    }
}

/// A run of digits and points ends inside the input, and behind its first
/// character.
pub proof fn lemma_numeral_end_bounds(s: Seq<char>, i: int)
    requires
        0 <= i <= s.len(),
    ensures
        i <= numeral_end(s, i) <= s.len(),
        i < s.len() && (is_digit(s[i]) || s[i] == '.') ==> i < numeral_end(s, i),
        forall|k: int| i <= k < numeral_end(s, i) ==> is_digit(#[trigger] s[k]) || s[k] == '.',
    decreases s.len() - i,
{
    if i < s.len() && (is_digit(s[i]) || s[i] == '.') {
        lemma_numeral_end_bounds(s, i + 1);
    }
}

/// The vocabulary is in the order of falling length. Every word in it has at
/// least one character, and none stands for a literal or for the end of the
/// input.
pub proof fn lemma_vocabulary(j: int, k: int)
    requires
        0 <= j <= k < VOCABULARY_SIZE,
    ensures
        vocabulary(j).text.len() >= vocabulary(k).text.len() >= 1,
        !(vocabulary(k).token is Eof),
        !(vocabulary(k).token is Num),
{
    reveal_strlit("truncate");
    reveal_strlit("signum");
    reveal_strlit("arsinh");
    reveal_strlit("arcosh");
    reveal_strlit("artanh");
    reveal_strlit("atan2");
    reveal_strlit("floor");
    reveal_strlit("round");
    reveal_strlit("trunc");
    reveal_strlit("asinh");
    reveal_strlit("acosh");
    reveal_strlit("atanh");
    reveal_strlit("asin");
    reveal_strlit("acos");
    reveal_strlit("atan");
    reveal_strlit("sinh");
    reveal_strlit("cosh");
    reveal_strlit("tanh");
    reveal_strlit("ceil");
    reveal_strlit("sqrt");
    reveal_strlit("exp2");
    reveal_strlit("sign");
    reveal_strlit("abs");
    reveal_strlit("cos");
    reveal_strlit("sin");
    reveal_strlit("tan");
    reveal_strlit("exp");
    reveal_strlit("log");
    reveal_strlit("min");
    reveal_strlit("max");
    reveal_strlit("pow");
    reveal_strlit("sgn");
    reveal_strlit("rad");
    reveal_strlit("ln");
    reveal_strlit("pi");
    reveal_strlit("e");
}

/// The longest word wins: no word of the vocabulary that matches at a
/// position is longer than the one that a lookup finds there.
pub proof fn lemma_lookup_finds_the_longest(s: Seq<char>, i: int, k: int)
    requires
        0 <= k < VOCABULARY_SIZE,
        word_matches(s, i, vocabulary(k)),
    ensures
        lookup(s, i, 0) matches Some((_, end)) && end - i >= vocabulary(k).text.len(),
{
    lemma_lookup_reaches(s, i, 0, k);
}

/// A lookup from entry `j` on finds a word no shorter than a later entry that
/// matches.
proof fn lemma_lookup_reaches(s: Seq<char>, i: int, j: int, k: int)
    requires
        0 <= j <= k < VOCABULARY_SIZE,
        word_matches(s, i, vocabulary(k)),
    ensures
        lookup(s, i, j) matches Some((_, end)) && end - i >= vocabulary(k).text.len(),
    decreases k - j,
{
    lemma_vocabulary(j, k);
    if !word_matches(s, i, vocabulary(j)) {
        lemma_lookup_reaches(s, i, j + 1, k);
    }
}

/// What a vocabulary lookup finds lies inside the input, behind at least one
/// character, and is neither a literal nor the end of the input.
pub proof fn lemma_lookup_bounds(s: Seq<char>, i: int, k: int)
    requires
        0 <= i <= s.len(),
        0 <= k,
    ensures
        match lookup(s, i, k) {
            Some((token, end)) => i < end <= s.len() && !(token is Eof) && !(token is Num),
            None => true,
        },
    decreases VOCABULARY_SIZE - k,
{
    if k < VOCABULARY_SIZE {
        lemma_vocabulary(k, k);
        if !word_matches(s, i, vocabulary(k)) {
            lemma_lookup_bounds(s, i, k + 1);
        }
    }
}

/// A token never reaches beyond the input. `Eof` is scanned at the end of the
/// input and nowhere else, and takes no character; any other token takes at
/// least one. The text of a literal is a well-formed numeral.
pub proof fn lemma_scan_bounds(s: Seq<char>, i: int)
    requires
        0 <= i <= s.len(),
    ensures
        match scan(s, i) {
            Some((token, end)) => {
                &&& i <= end <= s.len()
                &&& token is Eof <==> i == s.len()
                &&& token is Eof <==> end == i
                &&& token matches TokenView::Num(text) ==> is_numeral(text)
            },
            None => true,
        },
{
    if i < s.len() {
        if symbol(s[i]) is None {
            if is_digit(s[i]) {
                lemma_numeral_end_bounds(s, i);
            } else {
                lemma_lookup_bounds(s, i, 0);
            }
        }
    }
}

/// A scanner over one expression: the characters of the text and a cursor
/// into them. The cursor only moves forward.
pub struct Tokenizer {
    chars: Vec<char>,
    pos: usize,
}

impl Tokenizer {
    #[verifier::type_invariant]
    spec fn cursor_in_text(self) -> bool {
        self.pos <= self.chars@.len()
    }

    /// The text being scanned.
    pub closed spec fn text(&self) -> Seq<char> {
        self.chars@
    }

    /// The position of the next character to be read.
    pub closed spec fn position(&self) -> int {
        self.pos as int
    }

    /// A scanner at the start of `new_expr`.
    pub fn new(new_expr: &str) -> (tokenizer: Tokenizer)
        ensures
            tokenizer.text() == new_expr@,
            tokenizer.position() == 0,
    {
        let mut chars: Vec<char> = Vec::new();
        for c in it: new_expr.chars()
            invariant
                chars@ == it.seq().take(it.index() as int),
        {
            chars.push(c);
        }
        Tokenizer { chars, pos: 0 }
    }

    /// The token at the cursor. Where the text there spells a token, the
    /// cursor moves behind it; where it spells none, the result is `None` and
    /// the cursor stays. At the end of the text the token is `Eof`, and the
    /// cursor stays there. The cursor never moves back.
    pub fn next(&mut self) -> (token: Option<Token>)
        ensures
            final(self).text() == old(self).text(),
            old(self).position() <= final(self).position() <= final(self).text().len(),
            match scan(old(self).text(), old(self).position()) {
                Some((expected, end)) => {
                    &&& token is Some
                    &&& token->0@ == expected
                    &&& final(self).position() == end
                },
                None => token is None && final(self).position() == old(self).position(),
            },
    {
        proof {
            use_type_invariant(&*self);
            lemma_scan_bounds(self.chars@, self.pos as int);
        }
        if self.pos >= self.chars.len() {
            return Some(Token::Eof);
        }
        let c = self.chars[self.pos];
        match symbol_token(c) {
            Some(token) => {
                self.pos = self.pos + 1;
                Some(token)
            },
            None => {
                let found = if digit(c) {
                    self.numeral()
                } else {
                    self.word()
                };
                match found {
                    Some((token, end)) => {
                        self.pos = end;
                        Some(token)
                    },
                    None => None,
                }
            },
        }
    }

    /// The numeric literal at the cursor, which stands on a digit, and the
    /// position behind it.
    fn numeral(&self) -> (found: Option<(Token, usize)>)
        requires
            self.position() < self.text().len(),
            is_digit(self.text()[self.position()]),
        ensures
            match scan_numeral(self.text(), self.position()) {
                Some((expected, end)) => {
                    &&& found matches Some((token, behind))
                    &&& token@ == expected
                    &&& behind == end
                    &&& end <= self.text().len()
                },
                None => found is None,
            },
    {
        let ghost s = self.chars@;
        let start = self.pos;
        let mut end = start;
        let mut text = String::new();
        let mut points: usize = 0;
        while end < self.chars.len() && (digit(self.chars[end]) || self.chars[end] == '.')
            invariant
                s == self.chars@,
                start <= end <= s.len(),
                numeral_end(s, start as int) == numeral_end(s, end as int),
                text@ == s.subrange(start as int, end as int),
                points == count_points(text@),
                points <= end - start,
            decreases s.len() - end,
        {
            let c = self.chars[end];
            proof {
                assert(text@.push(c).drop_last() =~= text@);
                assert(text@.push(c) =~= s.subrange(start as int, end + 1));
            }
            text.push(c);
            if c == '.' {
                points = points + 1;
            }
            end = end + 1;
        }
        if points > 1 || (end < self.chars.len() && self.chars[end] == '(') {
            None
        } else {
            Some((Token::Num(text), end))
        }
    }

    /// Whether `word` stands at the cursor, followed by an opening
    /// parenthesis where `call` asks for one. If so, the position behind the
    /// word.
    fn spells(&self, word: &str, call: bool) -> (end: Option<usize>)
        ensures
            end is Some <==> {
                &&& spelled_at(self.text(), self.position(), word@)
                &&& call ==> followed_by_call(self.text(), self.position() + word@.len())
            },
            end matches Some(behind) ==> behind == self.position() + word@.len(),
    {
        proof {
            use_type_invariant(self);
        }
        let ghost s = self.chars@;
        let length = word.unicode_len();
        let room = self.chars.len() - self.pos;
        if length > room || (call && length == room) {
            return None;
        }
        let mut k: usize = 0;
        while k < length
            invariant
                s == self.chars@,
                length == word@.len(),
                self.pos + length <= self.chars.len(),
                k <= length,
                forall|j: int| 0 <= j < k ==> s[self.pos + j] == word@[j],
            decreases length - k,
        {
            if self.chars[self.pos + k] != word.get_char(k) {
                proof {
                    let part = s.subrange(self.pos as int, self.pos + length);
                    assert(part[k as int] != word@[k as int]);
                }
                return None;
            }
            k = k + 1;
        }
        proof {
            assert(s.subrange(self.pos as int, self.pos + length) =~= word@);
        }
        if call && self.chars[self.pos + length] != '(' {
            None
        } else {
            Some(self.pos + length)
        }
    }

    /// The first word of the vocabulary that matches at the cursor, as its
    /// token and the position behind the word.
    fn word(&self) -> (found: Option<(Token, usize)>)
        ensures
            match lookup(self.text(), self.position(), 0) {
                Some((expected, end)) => {
                    &&& found matches Some((token, behind))
                    &&& token@ == expected
                    &&& behind == end
                    &&& end <= self.text().len()
                },
                None => found is None,
            },
    {
        proof {
            use_type_invariant(self);
        }
        let mut k: usize = 0;
        while k < VOCABULARY_SIZE
            invariant
                k <= VOCABULARY_SIZE,
                lookup(self.text(), self.position(), 0) == lookup(
                    self.text(),
                    self.position(),
                    k as int,
                ),
            decreases VOCABULARY_SIZE - k,
        {
            let (text, call, token) = entry(k);
            match self.spells(text, call) {
                Some(end) => {
                    return Some((token, end));
                },
                None => {},
            }
            k = k + 1;
        }
        None
    }
}

/// Whether `c` is one of the ten decimal digits.
fn digit(c: char) -> (r: bool)
    ensures
        r == is_digit(c),
{
    '0' <= c && c <= '9'
}

/// The token that a single character spells by itself, if it spells one.
fn symbol_token(c: char) -> (token: Option<Token>)
    ensures
        match symbol(c) {
            Some(expected) => token is Some && token->0@ == expected,
            None => token is None,
        },
{
    match c {
        '@' => Some(Token::Ans),
        '+' => Some(Token::Add),
        '-' => Some(Token::Subtract),
        '*' => Some(Token::Multiply),
        '/' => Some(Token::Divide),
        '^' => Some(Token::Caret),
        '(' => Some(Token::LeftParen),
        ')' => Some(Token::RightParen),
        '|' => Some(Token::Bar),
        '!' => Some(Token::ExclamationMark),
        ',' => Some(Token::Comma),
        '%' => Some(Token::Modulo),
        '\u{03c0}' => Some(Token::Pi),
        '\u{230a}' => Some(Token::LeftFloor),
        '\u{230b}' => Some(Token::RightFloor),
        '\u{2308}' => Some(Token::LeftCeiling),
        '\u{2309}' => Some(Token::RightCeiling),
        '\u{00b2}' => Some(Token::Pow2),
        '\u{00b3}' => Some(Token::Pow3),
        '\u{00b0}' => Some(Token::DegToRad),
        _ => None,
    }
}

/// Entry `k` of the vocabulary.
fn entry(k: usize) -> (e: (&'static str, bool, Token))
    requires
        k < VOCABULARY_SIZE,
    ensures
        e.0@ == vocabulary(k as int).text,
        e.1 == vocabulary(k as int).call,
        e.2@ == vocabulary(k as int).token,
{
    match k {
        0 => ("truncate", true, Token::Truncate),
        1 => ("signum", true, Token::Sign),
        2 => ("arsinh", true, Token::Arsinh),
        3 => ("arcosh", true, Token::Arcosh),
        4 => ("artanh", true, Token::Artanh),
        5 => ("atan2", true, Token::Atan2),
        6 => ("floor", true, Token::Floor),
        7 => ("round", true, Token::Round),
        8 => ("trunc", true, Token::Truncate),
        9 => ("asinh", true, Token::Arsinh),
        10 => ("acosh", true, Token::Arcosh),
        11 => ("atanh", true, Token::Artanh),
        12 => ("asin", true, Token::Asin),
        13 => ("acos", true, Token::Acos),
        14 => ("atan", true, Token::Atan),
        15 => ("sinh", true, Token::Sinh),
        16 => ("cosh", true, Token::Cosh),
        17 => ("tanh", true, Token::Tanh),
        18 => ("ceil", true, Token::Ceil),
        19 => ("sqrt", true, Token::Sqrt),
        20 => ("exp2", true, Token::Exp2),
        21 => ("sign", true, Token::Sign),
        22 => ("abs", true, Token::Abs),
        23 => ("cos", true, Token::Cos),
        24 => ("sin", true, Token::Sin),
        25 => ("tan", true, Token::Tan),
        26 => ("exp", true, Token::Exp),
        27 => ("log", true, Token::Log),
        28 => ("min", true, Token::Min),
        29 => ("max", true, Token::Max),
        30 => ("pow", true, Token::Pow),
        31 => ("sgn", true, Token::Sign),
        32 => ("rad", false, Token::RadToDeg),
        33 => ("ln", true, Token::Ln),
        34 => ("pi", false, Token::Pi),
        _ => ("e", false, Token::E),
    }
}

} // verus!
