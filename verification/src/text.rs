//! Text operations over sequences of characters.

use vstd::prelude::*;
use vstd::utf8::*;

verus! {

/// The views of the elements of a sequence.
pub open spec fn views<T: View>(s: Seq<T>) -> Seq<T::V> {
    s.map_values(|x: T| x@)
}

pub broadcast proof fn lemma_views_push<T: View>(s: Seq<T>, x: T)
    ensures
        #[trigger] views(s.push(x)) == views(s).push(x@),
{
    assert(views(s.push(x)) =~= views(s).push(x@));
}

pub broadcast proof fn lemma_views_index<T: View>(s: Seq<T>, i: int)
    requires
        0 <= i < s.len(),
    ensures
        #[trigger] views(s)[i] == s[i]@,
{
}

pub broadcast proof fn lemma_views_len<T: View>(s: Seq<T>)
    ensures
        #[trigger] views(s).len() == s.len(),
{
}

/// `String::push` puts one character behind the text.
pub assume_specification[ String::push ](s: &mut String, c: char)
    ensures
        final(s)@ == old(s)@.push(c),
;

#[verifier::external_type_specification]
#[verifier::external_body]
pub struct ExFromUtf8Error(std::string::FromUtf8Error);

/// `String::from_utf8` accepts the bytes exactly when they are valid UTF-8, and
/// then holds the characters that they encode.
pub assume_specification[ String::from_utf8 ](vec: Vec<u8>) -> (r: Result<
    String,
    std::string::FromUtf8Error,
>)
    ensures
        r is Ok <==> valid_utf8(vec@),
        r matches Ok(s) ==> s@ == decode_utf8(vec@),
;

/// The text that `String::from_utf8_lossy` makes of the bytes.
pub uninterp spec fn utf8_lossy(bytes: Seq<u8>) -> Seq<char>;

/// `String::from_utf8_lossy` decodes the bytes, with a replacement character for
/// what is not UTF-8. Valid UTF-8 is decoded as it is.
#[verifier::external_body]
pub(crate) fn from_utf8_lossy(bytes: &[u8]) -> (r: String)
    ensures
        r@ == utf8_lossy(bytes@),
        valid_utf8(bytes@) ==> r@ == decode_utf8(bytes@),
{
    String::from_utf8_lossy(bytes).to_string()
}

/// The characters that the bytes encode, or nothing where they are not UTF-8.
pub open spec fn utf8_or_empty(bytes: Seq<u8>) -> Seq<char> {
    if valid_utf8(bytes) {
        decode_utf8(bytes)
    } else {
        Seq::empty()
    }
}

/// Decodes the bytes; what is not UTF-8 counts as the empty text.
pub fn decode_or_empty(bytes: Vec<u8>) -> (r: String)
    ensures
        r@ == utf8_or_empty(bytes@),
{
    match String::from_utf8(bytes) {
        Ok(s) => s,
        Err(_) => String::new(),
    }
}

/// The characters of the text, one by one.
pub fn chars_of(s: &str) -> (r: Vec<char>)
    ensures
        r@ == s@,
{
    let mut r: Vec<char> = Vec::new();
    for c in it: s.chars()
        invariant
            r@ == it.seq().take(it.index() as int),
            it.seq() == s@,
    {
        r.push(c);
    }
    r
}

/// The text made of `chars[from]`, ..., `chars[to - 1]`.
pub fn text_of(chars: &Vec<char>, from: usize, to: usize) -> (r: String)
    requires
        from <= to <= chars@.len(),
    ensures
        r@ == chars@.subrange(from as int, to as int),
{
    let mut r = String::new();
    let mut i: usize = from;
    while i < to
        invariant
            from <= i <= to <= chars@.len(),
            r@ == chars@.subrange(from as int, i as int),
        decreases to - i,
    {
        r.push(chars[i]);
        i = i + 1;
        assert(chars@.subrange(from as int, i as int) =~= chars@.subrange(
            from as int,
            i - 1,
        ).push(chars@[i - 1]));
    }
    r
}

/// Whether two texts have the same characters.
pub fn same_text(a: &str, b: &str) -> (r: bool)
    ensures
        r == (a@ == b@),
{
    let x = a.as_bytes();
    let y = b.as_bytes();
    proof {
        encode_utf8_decode_utf8(a@);
        encode_utf8_decode_utf8(b@);
    }
    if x.len() != y.len() {
        return false;
    }
    let mut i: usize = 0;
    while i < x.len()
        invariant
            x@.len() == y@.len(),
            i <= x@.len(),
            x@ == encode_utf8(a@),
            y@ == encode_utf8(b@),
            forall|j: int| 0 <= j < i ==> x@[j] == y@[j],
        decreases x@.len() - i,
    {
        if x[i] != y[i] {
            return false;
        }
        i = i + 1;
    }
    assert(x@ =~= y@);
    true
}

/// A copy of an optional text.
pub fn copy_option(s: &Option<String>) -> (r: Option<String>)
    ensures
        option_text(r) == option_text(*s),
{
    match s {
        Some(t) => Some(t.clone()),
        None => None,
    }
}

/// The characters of an optional text.
pub open spec fn option_text(s: Option<String>) -> Option<Seq<char>> {
    match s {
        Some(t) => Some(t@),
        None => None,
    }
}

/// Two texts, one behind the other.
pub fn concat2(a: &str, b: &str) -> (r: String)
    ensures
        r@ == a@ + b@,
{
    let mut r = a.to_owned();
    r.append(b);
    r
}

/// Three texts, one behind the other.
pub fn concat3(a: &str, b: &str, c: &str) -> (r: String)
    ensures
        r@ == a@ + b@ + c@,
{
    let mut r = a.to_owned();
    r.append(b);
    r.append(c);
    r
}

/// The parts with the separator between each two of them.
pub open spec fn joined(parts: Seq<Seq<char>>, sep: Seq<char>) -> Seq<char>
    decreases parts.len(),
{
    if parts.len() == 0 {
        Seq::empty()
    } else if parts.len() == 1 {
        parts[0]
    } else {
        joined(parts.drop_last(), sep) + sep + parts.last()
    }
}

/// Joins the parts from index `from` on, with the separator between them.
pub fn join_from(parts: &Vec<String>, from: usize, sep: &str) -> (r: String)
    requires
        from <= parts@.len(),
    ensures
        r@ == joined(views(parts@).skip(from as int), sep@),
{
    let ghost all = views(parts@).skip(from as int);
    let mut r = String::new();
    let mut i: usize = from;
    while i < parts.len()
        invariant
            from <= i <= parts@.len(),
            all == views(parts@).skip(from as int),
            r@ == joined(all.take(i - from), sep@),
        decreases parts@.len() - i,
    {
        if i > from {
            r.append(sep);
        }
        r.append(parts[i].as_str());
        proof {
            let k = i - from;
            assert(all.take(k + 1).drop_last() =~= all.take(k));
            assert(all.take(k + 1).last() == parts@[i as int]@);
            if k == 0 {
                assert(joined(all.take(0), sep@) =~= Seq::<char>::empty());
            }
        }
        i = i + 1;
    }
    assert(all.take(parts@.len() - from) =~= all);
    r
}

/// Joins all the parts, with the separator between them.
pub fn join(parts: &Vec<String>, sep: &str) -> (r: String)
    ensures
        r@ == joined(views(parts@), sep@),
{
    let r = join_from(parts, 0, sep);
    assert(views(parts@).skip(0) =~= views(parts@));
    r
}

/// The pieces of the text between the separators. There is always at least one.
pub open spec fn pieces(s: Seq<char>, sep: char) -> Seq<Seq<char>>
    decreases s.len(),
{
    if s.len() == 0 {
        seq![Seq::empty()]
    } else {
        let before = pieces(s.drop_last(), sep);
        if s.last() == sep {
            before.push(Seq::empty())
        } else {
            before.drop_last().push(before.last().push(s.last()))
        }
    }
}

/// Cutting a text at a separator loses nothing: its pieces hold no separator, and
/// joined by it they are the text again.
pub proof fn law_pieces_join(s: Seq<char>, sep: char)
    ensures
        pieces(s, sep).len() >= 1,
        joined(pieces(s, sep), seq![sep]) == s,
        forall|i: int| 0 <= i < pieces(s, sep).len() ==> !(#[trigger] pieces(s, sep)[i]).contains(
            sep,
        ),
    decreases s.len(),
{
    let p = pieces(s, sep);
    if s.len() == 0 {
        assert(joined(p, seq![sep]) =~= s);
    } else {
        let q = pieces(s.drop_last(), sep);
        law_pieces_join(s.drop_last(), sep);
        assert(s =~= s.drop_last().push(s.last()));
        if s.last() == sep {
            assert(p.drop_last() =~= q);
            assert(joined(p, seq![sep]) =~= s);
        } else {
            let last = q.last().push(s.last());
            assert(p.drop_last() =~= q.drop_last());
            assert(p.last() == last);
            assert(joined(p, seq![sep]) =~= s);
            assert forall|i: int| 0 <= i < p.len() implies !(#[trigger] p[i]).contains(sep) by {
                if i == p.len() - 1 {
                    if p[i].contains(sep) {
                        let k = choose|k: int| 0 <= k < last.len() && last[k] == sep;
                        assert(q.last()[k] == sep);
                    }
                } else {
                    assert(p[i] == q[i]);
                }
            }
        }
    }
}

/// Cuts the text at each separator.
pub fn split(s: &str, sep: char) -> (r: Vec<String>)
    ensures
        views(r@) == pieces(s@, sep),
        r@.len() >= 1,
{
    broadcast use lemma_views_push;

    let chars = chars_of(s);
    let mut done: Vec<String> = Vec::new();
    let mut piece = String::new();
    let mut i: usize = 0;
    assert(views(done@).push(piece@) =~= pieces(s@.take(0), sep));
    while i < chars.len()
        invariant
            chars@ == s@,
            i <= chars@.len(),
            views(done@).push(piece@) == pieces(s@.take(i as int), sep),
        decreases chars@.len() - i,
    {
        let c = chars[i];
        let ghost before = views(done@).push(piece@);
        assert(s@.take(i + 1).drop_last() =~= s@.take(i as int));
        assert(before.drop_last() =~= views(done@));
        if c == sep {
            done.push(piece);
            piece = String::new();
        } else {
            piece.push(c);
        }
        i = i + 1;
    }
    assert(s@.take(s@.len() as int) =~= s@);
    done.push(piece);
    done
}

/// Whether the character is white space (the Unicode property `White_Space`).
pub open spec fn is_white(c: char) -> bool {
    let n = c as u32;
    ||| 0x9 <= n <= 0xd
    ||| n == 0x20
    ||| n == 0x85
    ||| n == 0xa0
    ||| n == 0x1680
    ||| 0x2000 <= n <= 0x200a
    ||| n == 0x2028
    ||| n == 0x2029
    ||| n == 0x202f
    ||| n == 0x205f
    ||| n == 0x3000
}

/// Whether the character is white space.
pub fn white(c: char) -> (r: bool)
    ensures
        r == is_white(c),
{
    let n = c as u32;
    (0x9 <= n && n <= 0xd) || n == 0x20 || n == 0x85 || n == 0xa0 || n == 0x1680 || (0x2000 <= n
        && n <= 0x200a) || n == 0x2028 || n == 0x2029 || n == 0x202f || n == 0x205f || n == 0x3000
}

/// The text without the white space before its first other character.
pub open spec fn trimmed_front(s: Seq<char>) -> Seq<char>
    decreases s.len(),
{
    if s.len() > 0 && is_white(s[0]) {
        trimmed_front(s.skip(1))
    } else {
        s
    }
}

/// The text without the white space behind its last other character.
pub open spec fn trimmed_back(s: Seq<char>) -> Seq<char>
    decreases s.len(),
{
    if s.len() > 0 && is_white(s.last()) {
        trimmed_back(s.drop_last())
    } else {
        s
    }
}

/// The text without the white space at its two ends.
pub open spec fn trimmed(s: Seq<char>) -> Seq<char> {
    trimmed_back(trimmed_front(s))
}

/// Removes the white space at the two ends of the text.
pub fn trim(s: &str) -> (r: String)
    ensures
        r@ == trimmed(s@),
{
    let chars = chars_of(s);
    let mut from: usize = 0;
    assert(s@.skip(0) =~= s@);
    while from < chars.len() && white(chars[from])
        invariant
            chars@ == s@,
            from <= chars@.len(),
            trimmed_front(s@) == trimmed_front(s@.skip(from as int)),
        decreases chars@.len() - from,
    {
        assert(s@.skip(from as int).skip(1) =~= s@.skip(from + 1));
        from = from + 1;
    }
    assert(trimmed_front(s@) == s@.skip(from as int));
    let mut to: usize = chars.len();
    assert(s@.subrange(from as int, to as int) =~= s@.skip(from as int));
    while to > from && white(chars[to - 1])
        invariant
            chars@ == s@,
            from <= to <= chars@.len(),
            trimmed(s@) == trimmed_back(s@.subrange(from as int, to as int)),
        decreases to,
    {
        assert(s@.subrange(from as int, to as int).drop_last() =~= s@.subrange(
            from as int,
            to - 1,
        ));
        to = to - 1;
    }
    text_of(&chars, from, to)
}

/// The finished words of the text, and the word that its end is still in.
pub open spec fn word_parts(s: Seq<char>) -> (Seq<Seq<char>>, Seq<char>)
    decreases s.len(),
{
    if s.len() == 0 {
        (Seq::empty(), Seq::empty())
    } else {
        let (done, word) = word_parts(s.drop_last());
        if is_white(s.last()) {
            if word.len() == 0 {
                (done, word)
            } else {
                (done.push(word), Seq::empty())
            }
        } else {
            (done, word.push(s.last()))
        }
    }
}

/// The words of the text: its longest stretches without white space.
pub open spec fn words(s: Seq<char>) -> Seq<Seq<char>> {
    let (done, word) = word_parts(s);
    if word.len() == 0 {
        done
    } else {
        done.push(word)
    }
}

/// No word is empty and none holds white space; what a text has besides its words
/// is white space alone.
pub proof fn law_words(s: Seq<char>)
    ensures
        forall|i: int|
            0 <= i < words(s).len() ==> (#[trigger] words(s)[i]).len() > 0 && (forall|j: int|
                0 <= j < words(s)[i].len() ==> !is_white(#[trigger] words(s)[i][j])),
        joined(words(s), Seq::empty()) == s.filter(|c: char| !is_white(c)),
{
    lemma_word_parts(s);
    let (done, word) = word_parts(s);
    if word.len() > 0 {
        assert(done.push(word).drop_last() =~= done);
        assert(joined(words(s), Seq::empty()) =~= joined(done, Seq::empty()) + word);
    } else {
        assert(joined(words(s), Seq::empty()) =~= joined(done, Seq::empty()) + word);
    }
}

proof fn lemma_word_parts(s: Seq<char>)
    ensures
        ({
            let (done, word) = word_parts(s);
            &&& forall|i: int|
                0 <= i < done.len() ==> (#[trigger] done[i]).len() > 0 && (forall|j: int|
                    0 <= j < done[i].len() ==> !is_white(#[trigger] done[i][j]))
            &&& forall|j: int| 0 <= j < word.len() ==> !is_white(#[trigger] word[j])
            &&& joined(done, Seq::empty()) + word == s.filter(|c: char| !is_white(c))
        }),
    decreases s.len(),
{
    reveal(Seq::filter);
    let f = |c: char| !is_white(c);
    let none = Seq::<char>::empty();
    if s.len() == 0 {
        assert(joined(Seq::<Seq<char>>::empty(), none) + none =~= s.filter(f));
    } else {
        lemma_word_parts(s.drop_last());
        let (done, word) = word_parts(s.drop_last());
        let (done2, word2) = word_parts(s);
        if is_white(s.last()) {
            if word.len() > 0 {
                assert(done2.drop_last() =~= done);
                assert(joined(done2, none) + word2 =~= joined(done, none) + word);
            }
        } else {
            assert(joined(done2, none) + word2 =~= (joined(done, none) + word).push(s.last()));
        }
    }
}

/// Cuts the text into its words.
pub fn split_whitespace(s: &str) -> (r: Vec<String>)
    ensures
        views(r@) == words(s@),
{
    broadcast use lemma_views_push;

    let chars = chars_of(s);
    let mut done: Vec<String> = Vec::new();
    let mut word: Vec<char> = Vec::new();
    let mut i: usize = 0;
    assert(views(done@) =~= word_parts(s@.take(0)).0);
    while i < chars.len()
        invariant
            chars@ == s@,
            i <= chars@.len(),
            word_parts(s@.take(i as int)) == (views(done@), word@),
        decreases chars@.len() - i,
    {
        let c = chars[i];
        assert(s@.take(i + 1).drop_last() =~= s@.take(i as int));
        if white(c) {
            if word.len() > 0 {
                let w = text_of(&word, 0, word.len());
                assert(word@.subrange(0, word@.len() as int) =~= word@);
                done.push(w);
                word = Vec::new();
            }
        } else {
            word.push(c);
        }
        i = i + 1;
    }
    assert(s@.take(s@.len() as int) =~= s@);
    if word.len() > 0 {
        let w = text_of(&word, 0, word.len());
        assert(word@.subrange(0, word@.len() as int) =~= word@);
        done.push(w);
    }
    done
}

/// Whether the first character of the text is `c`.
pub open spec fn begins_with(s: Seq<char>, c: char) -> bool {
    s.len() > 0 && s[0] == c
}

/// Whether the text starts with the character.
pub fn starts_with(s: &str, c: char) -> (r: bool)
    ensures
        r == begins_with(s@, c),
{
    if s.is_empty() {
        false
    } else {
        s.get_char(0) == c
    }
}

/// The text without the `c`s that it starts with.
pub open spec fn without_leading(s: Seq<char>, c: char) -> Seq<char>
    decreases s.len(),
{
    if begins_with(s, c) {
        without_leading(s.skip(1), c)
    } else {
        s
    }
}

/// Removes each `c` that the text starts with.
pub fn trim_start_matches(s: &str, c: char) -> (r: String)
    ensures
        r@ == without_leading(s@, c),
{
    let chars = chars_of(s);
    let mut from: usize = 0;
    assert(s@.skip(0) =~= s@);
    while from < chars.len() && chars[from] == c
        invariant
            chars@ == s@,
            from <= chars@.len(),
            without_leading(s@, c) == without_leading(s@.skip(from as int), c),
        decreases chars@.len() - from,
    {
        assert(s@.skip(from as int).skip(1) =~= s@.skip(from + 1));
        from = from + 1;
    }
    assert(s@.subrange(from as int, s@.len() as int) =~= s@.skip(from as int));
    text_of(&chars, from, chars.len())
}

/// The first `n` characters of the text, or all of them where it has fewer.
pub open spec fn at_most(s: Seq<char>, n: nat) -> Seq<char> {
    if s.len() <= n {
        s
    } else {
        s.take(n as int)
    }
}

/// Cuts the text off behind its `n`th character.
pub fn take_chars(s: &str, n: usize) -> (r: String)
    ensures
        r@ == at_most(s@, n as nat),
{
    let chars = chars_of(s);
    if chars.len() <= n {
        s.to_owned()
    } else {
        assert(s@.subrange(0, n as int) =~= s@.take(n as int));
        text_of(&chars, 0, n)
    }
}

/// The character of a decimal digit.
pub open spec fn digit(d: nat) -> char {
    ('0' as u32 + d) as char
}

/// The number in decimal.
pub open spec fn decimal(n: nat) -> Seq<char>
    decreases n,
{
    if n < 10 {
        seq![digit(n)]
    } else {
        decimal(n / 10).push(digit(n % 10))
    }
}

/// Writes the number in decimal.
pub fn decimal_text(n: usize) -> (r: String)
    ensures
        r@ == decimal(n as nat),
    decreases n,
{
    let d = (n % 10) as u8;
    let c = (48u8 + d) as char;
    if n < 10 {
        let mut r = String::new();
        r.push(c);
        assert(r@ =~= decimal(n as nat));
        r
    } else {
        let mut r = decimal_text(n / 10);
        r.push(c);
        r
    }
}

/// The white space characters are these and no others.
pub proof fn law_white(c: char)
    ensures
        is_white(c) <==> (c == ' ' || c == '\t' || c == '\n' || c == '\u{b}' || c == '\u{c}' || c
            == '\r' || c == '\u{85}' || c == '\u{a0}' || c == '\u{1680}' || c == '\u{2000}' || c
            == '\u{2001}' || c == '\u{2002}' || c == '\u{2003}' || c == '\u{2004}' || c
            == '\u{2005}' || c == '\u{2006}' || c == '\u{2007}' || c == '\u{2008}' || c
            == '\u{2009}' || c == '\u{200a}' || c == '\u{2028}' || c == '\u{2029}' || c
            == '\u{202f}' || c == '\u{205f}' || c == '\u{3000}'),
{
}

/// Whether the text is white space alone.
pub open spec fn all_white(s: Seq<char>) -> bool {
    forall|i: int| 0 <= i < s.len() ==> is_white(#[trigger] s[i])
}

proof fn lemma_trimmed_front(s: Seq<char>)
    ensures
        exists|n: int|
            0 <= n <= s.len() && trimmed_front(s) == #[trigger] s.skip(n) && all_white(s.take(n)),
        trimmed_front(s).len() > 0 ==> !is_white(trimmed_front(s)[0]),
    decreases s.len(),
{
    if s.len() > 0 && is_white(s[0]) {
        let rest = s.skip(1);
        lemma_trimmed_front(rest);
        let n = choose|n: int|
            0 <= n <= rest.len() && trimmed_front(rest) == #[trigger] rest.skip(n) && all_white(
                rest.take(n),
            );
        assert(s.skip(n + 1) =~= rest.skip(n));
        assert(all_white(s.take(n + 1))) by {
            assert forall|i: int| 0 <= i < n + 1 implies is_white(#[trigger] s.take(n + 1)[i]) by {
                if i > 0 {
                    assert(rest.take(n)[i - 1] == s[i]);
                }
            }
        }
    } else {
        assert(s.skip(0) =~= s);
        assert(all_white(s.take(0)));
    }
}

proof fn lemma_trimmed_back(s: Seq<char>)
    ensures
        exists|n: int|
            0 <= n <= s.len() && trimmed_back(s) == #[trigger] s.take(n) && all_white(s.skip(n)),
        trimmed_back(s).len() > 0 ==> !is_white(trimmed_back(s).last()),
    decreases s.len(),
{
    if s.len() > 0 && is_white(s.last()) {
        let rest = s.drop_last();
        lemma_trimmed_back(rest);
        let n = choose|n: int|
            0 <= n <= rest.len() && trimmed_back(rest) == #[trigger] rest.take(n) && all_white(
                rest.skip(n),
            );
        assert(s.take(n) =~= rest.take(n));
        assert(all_white(s.skip(n))) by {
            assert forall|i: int| 0 <= i < s.len() - n implies is_white(#[trigger] s.skip(n)[i]) by {
                if i < rest.len() - n {
                    assert(rest.skip(n)[i] == s[n + i]);
                }
            }
        }
    } else {
        assert(s.take(s.len() as int) =~= s);
        assert(all_white(s.skip(s.len() as int)));
    }
}

/// Trimming takes white space off the two ends of a text and nothing else: what is left
/// neither starts nor ends with white space, and is empty exactly if the text is white
/// space alone.
pub proof fn law_trimmed(s: Seq<char>)
    ensures
        exists|a: int, b: int|
            {
                &&& 0 <= a <= b <= s.len()
                &&& trimmed(s) == #[trigger] s.subrange(a, b)
                &&& all_white(s.take(a))
                &&& all_white(s.skip(b))
            },
        trimmed(s).len() > 0 ==> !is_white(trimmed(s)[0]) && !is_white(trimmed(s).last()),
        trimmed(s).len() == 0 <==> all_white(s),
{
    let front = trimmed_front(s);
    lemma_trimmed_front(s);
    lemma_trimmed_back(front);
    let a = choose|a: int|
        0 <= a <= s.len() && front == #[trigger] s.skip(a) && all_white(s.take(a));
    let n = choose|n: int|
        0 <= n <= front.len() && trimmed(s) == #[trigger] front.take(n) && all_white(front.skip(n));
    assert(s.subrange(a, a + n) =~= front.take(n));
    assert(s.skip(a + n) =~= front.skip(n));
    if n > 0 {
        assert(trimmed(s)[0] == front[0]);
        assert(front[0] == s[a]);
    }
    if n == 0 {
        assert forall|i: int| 0 <= i < s.len() implies is_white(#[trigger] s[i]) by {
            if i < a {
                assert(s.take(a)[i] == s[i]);
            } else {
                assert(s.skip(a + n)[i - a] == s[i]);
            }
        }
    }
}

/// A text without white space is one word, and an empty text is none.
pub proof fn law_one_word(s: Seq<char>)
    requires
        forall|i: int| 0 <= i < s.len() ==> !is_white(#[trigger] s[i]),
    ensures
        s.len() > 0 ==> words(s) == seq![s],
        s.len() == 0 ==> words(s) == Seq::<Seq<char>>::empty(),
{
    lemma_one_word(s);
    assert(Seq::<Seq<char>>::empty().push(s) =~= seq![s]);
}

proof fn lemma_one_word(s: Seq<char>)
    requires
        forall|i: int| 0 <= i < s.len() ==> !is_white(#[trigger] s[i]),
    ensures
        word_parts(s) == (Seq::<Seq<char>>::empty(), s),
    decreases s.len(),
{
    if s.len() > 0 {
        let before = s.drop_last();
        assert forall|i: int| 0 <= i < before.len() implies !is_white(#[trigger] before[i]) by {
            assert(before[i] == s[i]);
        }
        lemma_one_word(before);
        assert(!is_white(s[s.len() - 1]));
        assert(before.push(s.last()) =~= s);
    } else {
        assert(s =~= Seq::<char>::empty());
    }
}

/// White space cuts: the words before it and the words behind it are the words of the
/// text.
pub proof fn law_words_cut(a: Seq<char>, c: char, b: Seq<char>)
    requires
        is_white(c),
    ensures
        words(a.push(c) + b) == words(a) + words(b),
{
    lemma_words_cut(a, c, b);
    let (done, word) = word_parts(b);
    if word.len() > 0 {
        assert((words(a) + done).push(word) =~= words(a) + done.push(word));
    }
}

proof fn lemma_words_cut(a: Seq<char>, c: char, b: Seq<char>)
    requires
        is_white(c),
    ensures
        word_parts(a.push(c) + b) == (words(a) + word_parts(b).0, word_parts(b).1),
    decreases b.len(),
{
    let all = a.push(c) + b;
    if b.len() == 0 {
        assert(all =~= a.push(c));
        assert(all.drop_last() =~= a);
        assert(words(a) + Seq::<Seq<char>>::empty() =~= words(a));
        assert(word_parts(all).0 =~= words(a));
    } else {
        lemma_words_cut(a, c, b.drop_last());
        assert(all.drop_last() =~= a.push(c) + b.drop_last());
        let (done, word) = word_parts(b.drop_last());
        if is_white(b.last()) && word.len() > 0 {
            assert((words(a) + done).push(word) =~= words(a) + done.push(word));
        }
    }
}

/// Of a text only the leading `c`s are taken off, and all of them.
pub proof fn law_without_leading(s: Seq<char>, c: char)
    ensures
        exists|n: int|
            {
                &&& 0 <= n <= s.len()
                &&& without_leading(s, c) == #[trigger] s.skip(n)
                &&& forall|i: int| 0 <= i < n ==> #[trigger] s[i] == c
            },
        without_leading(s, c).len() > 0 ==> without_leading(s, c)[0] != c,
    decreases s.len(),
{
    if s.len() > 0 && s[0] == c {
        let rest = s.skip(1);
        law_without_leading(rest, c);
        let n = choose|n: int|
            {
                &&& 0 <= n <= rest.len()
                &&& without_leading(rest, c) == #[trigger] rest.skip(n)
                &&& forall|i: int| 0 <= i < n ==> #[trigger] rest[i] == c
            };
        assert(s.skip(n + 1) =~= rest.skip(n));
        assert forall|i: int| 0 <= i < n + 1 implies #[trigger] s[i] == c by {
            if i > 0 {
                assert(rest[i - 1] == c);
            }
        }
    } else {
        assert(s.skip(0) =~= s);
    }
}

/// Joining puts the separator between two parts, and nowhere else.
pub proof fn law_joined(a: Seq<Seq<char>>, b: Seq<Seq<char>>, part: Seq<char>, sep: Seq<char>)
    ensures
        joined(Seq::empty(), sep) == Seq::<char>::empty(),
        joined(seq![part], sep) == part,
        a.len() > 0 && b.len() > 0 ==> joined(a + b, sep) == joined(a, sep) + sep + joined(b, sep),
    decreases b.len(),
{
    if a.len() > 0 && b.len() == 1 {
        assert((a + b).drop_last() =~= a);
        assert((a + b).last() == b[0]);
    } else if a.len() > 0 && b.len() > 1 {
        law_joined(a, b.drop_last(), part, sep);
        assert((a + b).drop_last() =~= a + b.drop_last());
        assert((a + b).last() == b.last());
        assert(joined(a + b, sep) =~= joined(a, sep) + sep + joined(b, sep));
    }
}

/// What was written as UTF-8 is read as it was, and what is no UTF-8 counts as empty.
pub proof fn law_utf8(s: Seq<char>, bytes: Seq<u8>)
    ensures
        utf8_or_empty(encode_utf8(s)) == s,
        !valid_utf8(bytes) ==> utf8_or_empty(bytes) == Seq::<char>::empty(),
        valid_utf8(bytes) ==> encode_utf8(utf8_or_empty(bytes)) == bytes,
{
    encode_utf8_valid_utf8(s);
    encode_utf8_decode_utf8(s);
    if valid_utf8(bytes) {
        decode_utf8_encode_utf8(bytes);
    }
}

/// A number in decimal has its digits in their order, without a zero before them.
pub proof fn law_decimal(n: nat, d: nat)
    requires
        d < 10,
    ensures
        decimal(d).len() == 1,
        decimal(d)[0] as u32 == 48 + d,
        n > 0 ==> decimal(10 * n + d) == decimal(n) + decimal(d),
{
    if n > 0 {
        assert((10 * n + d) / 10 == n);
        assert((10 * n + d) % 10 == d);
        assert(decimal(n).push(digit(d)) =~= decimal(n) + seq![digit(d)]);
    }
}

} // verus!
