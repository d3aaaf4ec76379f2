//! The git remote-helper protocol on standard input and output: lines read
//! byte by byte, split into words, and the helper's answer to each command.
use vstd::prelude::*;
use crate::text::chars_of;
use crate::text::push_char;
use crate::text::string_of;

verus! {

// ---------------------------------------------------------------------------
// Lines
// ---------------------------------------------------------------------------

/// The character of a byte read from git: the code point of the same value
/// (each byte stands for one character, U+0000 to U+00FF).
pub open spec fn byte_char(b: u8) -> char {
    b as char
}

/// The newline byte that ends a line.
pub open spec fn is_newline(b: u8) -> bool {
    b == 10
}

/// The characters of a line of bytes.
pub open spec fn line_chars(bytes: Seq<u8>) -> Seq<char> {
    bytes.map_values(|b: u8| byte_char(b))
}

/// One byte read: the line read so far afterwards, and the line that the
/// byte completes. A newline completes the line read so far and starts an
/// empty one; any other byte adds its character to the line.
pub open spec fn feed_spec(line: Seq<char>, b: u8) -> (Seq<char>, Option<Seq<char>>) {
    if is_newline(b) {
        (Seq::empty(), Some(line))
    } else {
        (line.push(byte_char(b)), None)
    }
}

/// The line read so far after reading `bytes`, one after the other.
pub open spec fn feed_all(line: Seq<char>, bytes: Seq<u8>) -> Seq<char>
    decreases bytes.len(),
{
    if bytes.len() == 0 {
        line
    } else {
        feed_all(feed_spec(line, bytes[0]).0, bytes.drop_first())
    }
}

/// Collects the bytes of one line; the newline ends it.
pub struct LineReader {
    line: String,
}

impl View for LineReader {
    type V = Seq<char>;

    /// The characters of the line read so far.
    closed spec fn view(&self) -> Seq<char> {
        self.line@
    }
}

impl LineReader {
    /// A reader that has read nothing yet.
    pub fn new() -> (r: LineReader)
        ensures
            r@ == Seq::<char>::empty(),
    {
        LineReader { line: String::new() }
    }

    /// Takes the next byte. A newline ends the line: the line read so far
    /// is returned, without the newline, and the reader starts a new line.
    /// Any other byte adds its character to the line.
    pub fn feed(&mut self, b: u8) -> (res: Option<String>)
        ensures
            (final(self)@, res.deep_view()) == feed_spec(old(self)@, b),
    {
        if b == 10u8 {
            let mut line = String::new();
            std::mem::swap(&mut line, &mut self.line);
            Some(line)
        } else {
            push_char(&mut self.line, b as char);
            None
        }
    }
}

/// Only the byte 10 ends a line: it completes the line read so far and
/// starts an empty one; every other byte completes no line and adds the
/// character of the same code point to the line.
pub proof fn law_only_newline_ends_a_line(line: Seq<char>, b: u8)
    ensures
        b == 10 ==> feed_spec(line, b) == (Seq::<char>::empty(), Some(line)),
        b != 10 ==> feed_spec(line, b).1 is None && feed_spec(line, b).0.len() == line.len() + 1
            && feed_spec(line, b).0.take(line.len() as int) == line && feed_spec(line, b).0.last()
            as u32 == b as u32,
{
    if b != 10 {
        assert(line.push(byte_char(b)).take(line.len() as int) =~= line);
    }
}

/// Bytes without a newline add their characters to the line read so far.
pub proof fn lemma_feed_all(line: Seq<char>, bytes: Seq<u8>)
    requires
        forall|i: int| 0 <= i < bytes.len() ==> !is_newline(#[trigger] bytes[i]),
    ensures
        feed_all(line, bytes) == line + line_chars(bytes),
    decreases bytes.len(),
{
    if bytes.len() > 0 {
        let rest = bytes.drop_first();
        assert forall|i: int| 0 <= i < rest.len() implies !is_newline(#[trigger] rest[i]) by {
            assert(rest[i] == bytes[i + 1]);
        }
        assert(!is_newline(bytes[0]));
        lemma_feed_all(line.push(byte_char(bytes[0])), rest);
        assert(line.push(byte_char(bytes[0])) + line_chars(rest) =~= line + line_chars(bytes));
    } else {
        assert(line + line_chars(bytes) =~= line);
    }
}

/// A line is the characters of its bytes: from an empty line, the bytes of
/// a line without newlines, and then a newline, complete exactly the line
/// of their characters, and the reader starts an empty line.
pub proof fn law_line_is_its_bytes(bytes: Seq<u8>)
    requires
        forall|i: int| 0 <= i < bytes.len() ==> !is_newline(#[trigger] bytes[i]),
    ensures
        feed_spec(feed_all(Seq::empty(), bytes), 10u8) == (
            Seq::<char>::empty(),
            Some(line_chars(bytes)),
        ),
{
    lemma_feed_all(Seq::empty(), bytes);
    assert(Seq::<char>::empty() + line_chars(bytes) =~= line_chars(bytes));
}

// ---------------------------------------------------------------------------
// Words
// ---------------------------------------------------------------------------

/// A character with the Unicode `White_Space` property.
pub open spec fn is_white_space(c: char) -> bool {
    ||| ('\u{9}' <= c && c <= '\u{d}')
    ||| c == ' '
    ||| c == '\u{85}'
    ||| c == '\u{a0}'
    ||| c == '\u{1680}'
    ||| ('\u{2000}' <= c && c <= '\u{200a}')
    ||| c == '\u{2028}'
    ||| c == '\u{2029}'
    ||| c == '\u{202f}'
    ||| c == '\u{205f}'
    ||| c == '\u{3000}'
}

pub fn check_white_space(c: char) -> (b: bool)
    ensures
        b == is_white_space(c),
{
    ('\u{9}' <= c && c <= '\u{d}') || c == ' ' || c == '\u{85}' || c == '\u{a0}' || c == '\u{1680}'
        || ('\u{2000}' <= c && c <= '\u{200a}') || c == '\u{2028}' || c == '\u{2029}' || c
        == '\u{202f}' || c == '\u{205f}' || c == '\u{3000}'
}

/// White space is exactly the characters with the Unicode `White_Space`
/// property: U+0009 to U+000D, U+0020, U+0085, U+00A0, U+1680, U+2000 to
/// U+200A, U+2028, U+2029, U+202F, U+205F and U+3000.
pub proof fn law_white_space(c: char)
    ensures
        is_white_space(c) <==> ((9 <= c as u32 && c as u32 <= 13) || c as u32 == 32 || c as u32
            == 0x85 || c as u32 == 0xa0 || c as u32 == 0x1680 || (0x2000 <= c as u32 && c as u32
            <= 0x200a) || c as u32 == 0x2028 || c as u32 == 0x2029 || c as u32 == 0x202f || c as u32
            == 0x205f || c as u32 == 0x3000),
{
}

/// The length of the run of non-white-space characters that `s` starts with.
pub open spec fn word_len(s: Seq<char>) -> nat
    decreases s.len(),
{
    if s.len() == 0 || is_white_space(s[0]) {
        0
    } else {
        1 + word_len(s.drop_first())
    }
}

/// The words of `s`: its maximal runs of non-white-space characters, in
/// order.
pub open spec fn words(s: Seq<char>) -> Seq<Seq<char>>
    decreases s.len(),
{
    if s.len() == 0 {
        Seq::empty()
    } else if is_white_space(s[0]) {
        words(s.drop_first())
    } else {
        let n = word_len(s);
        proof {
            lemma_word_len_bound(s);
        }
        seq![s.take(n as int)] + words(s.skip(n as int))
    }
}

pub proof fn lemma_word_len_bound(s: Seq<char>)
    ensures
        word_len(s) <= s.len(),
        s.len() > 0 && !is_white_space(s[0]) ==> word_len(s) > 0,
    decreases s.len(),
{
    if s.len() > 0 && !is_white_space(s[0]) {
        lemma_word_len_bound(s.drop_first());
    }
}

/// The words after a white-space character are the words after it.
proof fn lemma_words_skip_space(s: Seq<char>, i: int)
    requires
        0 <= i < s.len(),
        is_white_space(s[i]),
    ensures
        words(s.skip(i)) == words(s.skip(i + 1)),
{
    assert(s.skip(i).drop_first() =~= s.skip(i + 1));
}

/// A run of non-white-space characters `s[i..j]` that white space or the
/// end follows is a word.
proof fn lemma_word_len_run(s: Seq<char>, i: int, j: int)
    requires
        0 <= i <= j <= s.len(),
        forall|k: int| i <= k < j ==> !is_white_space(#[trigger] s[k]),
        j == s.len() || is_white_space(s[j]),
    ensures
        word_len(s.skip(i)) == j - i,
    decreases j - i,
{
    if i < j {
        lemma_word_len_run(s, i + 1, j);
        assert(s.skip(i).drop_first() =~= s.skip(i + 1));
    }
}

proof fn lemma_words_take_word(s: Seq<char>, i: int, j: int)
    requires
        0 <= i < j <= s.len(),
        forall|k: int| i <= k < j ==> !is_white_space(#[trigger] s[k]),
        j == s.len() || is_white_space(s[j]),
    ensures
        words(s.skip(i)) == seq![s.subrange(i, j)] + words(s.skip(j)),
{
    lemma_word_len_run(s, i, j);
    assert(s.skip(i).take(j - i) =~= s.subrange(i, j));
    assert(s.skip(i).skip(j - i) =~= s.skip(j));
}

/// The first position at or after `i` that holds no white space.
fn skip_white_space(v: &Vec<char>, i: usize) -> (j: usize)
    requires
        i <= v.len(),
    ensures
        i <= j <= v.len(),
        j == v.len() || !is_white_space(v@[j as int]),
        words(v@.skip(i as int)) == words(v@.skip(j as int)),
{
    let mut j: usize = i;
    while j < v.len() && check_white_space(v[j])
        invariant
            i <= j <= v.len(),
            words(v@.skip(i as int)) == words(v@.skip(j as int)),
        decreases v.len() - j,
    {
        proof {
            lemma_words_skip_space(v@, j as int);
        }
        j += 1;
    }
    j
}

/// The end of the word that starts at `v[i]`.
fn word_end(v: &Vec<char>, i: usize) -> (j: usize)
    requires
        i < v.len(),
        !is_white_space(v@[i as int]),
    ensures
        i < j <= v.len(),
        words(v@.skip(i as int)) == seq![v@.subrange(i as int, j as int)] + words(
            v@.skip(j as int),
        ),
{
    let mut j: usize = i;
    while j < v.len() && !check_white_space(v[j])
        invariant
            i <= j <= v.len(),
            forall|k: int| i <= k < j ==> !is_white_space(#[trigger] v@[k]),
        decreases v.len() - j,
    {
        j += 1;
    }
    proof {
        lemma_words_take_word(v@, i as int, j as int);
    }
    j
}

/// The first two words of `s`, where it has them.
pub fn first_two_words(s: &str) -> (res: (Option<String>, Option<String>))
    ensures
        res.0 is Some <==> words(s@).len() >= 1,
        res.0 matches Some(w) ==> w@ == words(s@)[0],
        res.1 is Some <==> words(s@).len() >= 2,
        res.1 matches Some(w) ==> w@ == words(s@)[1],
{
    let v = chars_of(s);
    proof {
        assert(v@.skip(0) =~= v@);
    }
    let i = skip_white_space(&v, 0);
    if i == v.len() {
        proof {
            assert(v@.skip(i as int) =~= Seq::<char>::empty());
        }
        return (None, None);
    }
    let j = word_end(&v, i);
    let first = string_of(&v, i, j);
    let k = skip_white_space(&v, j);
    if k == v.len() {
        proof {
            assert(v@.skip(k as int) =~= Seq::<char>::empty());
        }
        return (Some(first), None);
    }
    let l = word_end(&v, k);
    let second = string_of(&v, k, l);
    (Some(first), Some(second))
}

// ---------------------------------------------------------------------------
// Commands
// ---------------------------------------------------------------------------

/// What a command line from git cannot be answered for.
#[derive(Debug, PartialEq, Eq)]
pub enum ProtocolError {
    NoCommandGiven,
    NoServiceGiven,
    UnknownCommand(String),
}

impl ProtocolError {
    /// The message that describes this error.
    pub fn message(&self) -> (s: String)
        ensures
            s@ == match *self {
                ProtocolError::NoCommandGiven => "no command given via git protocol"@,
                ProtocolError::NoServiceGiven => "no service given to connect command"@,
                ProtocolError::UnknownCommand(_) => "unknown command specified"@,
            },
    {
        match self {
            ProtocolError::NoCommandGiven => "no command given via git protocol".to_owned(),
            ProtocolError::NoServiceGiven => "no service given to connect command".to_owned(),
            ProtocolError::UnknownCommand(_) => "unknown command specified".to_owned(),
        }
    }
}

/// The helper's answer to a command line.
pub enum ProtocolAction {
    /// Write these bytes to git and read the next command.
    Reply(Vec<u8>),
    /// Connect git to this service; the negotiation is over.
    Connect(String),
}

/// The answer to `capabilities`: the helper only offers `connect`.
pub open spec fn capabilities_reply() -> Seq<u8> {
    seq![99u8, 111, 110, 110, 101, 99, 116, 10, 10]
}

/// The answer to `capabilities` is the bytes of `connect`, then a newline
/// that ends the capability and one that ends the list.
pub proof fn law_capabilities_reply()
    ensures
        capabilities_reply() == seq![
            'c' as u8,
            'o' as u8,
            'n' as u8,
            'n' as u8,
            'e' as u8,
            'c' as u8,
            't' as u8,
            '\n' as u8,
            '\n' as u8,
        ],
{
    assert(capabilities_reply() =~= seq![
        'c' as u8,
        'o' as u8,
        'n' as u8,
        'n' as u8,
        'e' as u8,
        'c' as u8,
        't' as u8,
        '\n' as u8,
        '\n' as u8,
    ]);
}

/// The answer to a command line, as a value.
pub enum Answer {
    /// Write these bytes to git and read the next command.
    Reply(Seq<u8>),
    /// Connect git to this service.
    Connect(Seq<char>),
    NoCommandGiven,
    NoServiceGiven,
    UnknownCommand(Seq<char>),
}

/// The answer to a command line, by its first two words: `capabilities`
/// is answered with the one capability `connect`; `connect <service>` ends
/// the negotiation with that service; a line without words, `connect`
/// without a service, and any other command are refused.
pub open spec fn answer(line: Seq<char>) -> Answer {
    let w = words(line);
    if w.len() == 0 {
        Answer::NoCommandGiven
    } else if w[0] == "capabilities"@ {
        Answer::Reply(capabilities_reply())
    } else if w[0] == "connect"@ {
        if w.len() >= 2 {
            Answer::Connect(w[1])
        } else {
            Answer::NoServiceGiven
        }
    } else {
        Answer::UnknownCommand(w[0])
    }
}

/// The answer that a result of `negotiate_step` stands for.
pub open spec fn answer_of(res: Result<ProtocolAction, ProtocolError>) -> Answer {
    match res {
        Ok(ProtocolAction::Reply(b)) => Answer::Reply(b@),
        Ok(ProtocolAction::Connect(s)) => Answer::Connect(s@),
        Err(ProtocolError::NoCommandGiven) => Answer::NoCommandGiven,
        Err(ProtocolError::NoServiceGiven) => Answer::NoServiceGiven,
        Err(ProtocolError::UnknownCommand(c)) => Answer::UnknownCommand(c@),
    }
}

/// Answers one command line from git (see `answer`).
pub fn negotiate_step(line: &str) -> (res: Result<ProtocolAction, ProtocolError>)
    ensures
        answer_of(res) == answer(line@),
{
    let (first, second) = first_two_words(line);
    let cmd = match first {
        Some(c) => c,
        None => return Err(ProtocolError::NoCommandGiven),
    };
    let capabilities = "capabilities".to_owned();
    let connect = "connect".to_owned();
    if cmd == capabilities {
        let reply: Vec<u8> = vec![99u8, 111, 110, 110, 101, 99, 116, 10, 10];
        proof {
            assert(reply@ =~= capabilities_reply());
        }
        Ok(ProtocolAction::Reply(reply))
    } else if cmd == connect {
        match second {
            Some(service) => Ok(ProtocolAction::Connect(service)),
            None => Err(ProtocolError::NoServiceGiven),
        }
    } else {
        Err(ProtocolError::UnknownCommand(cmd))
    }
}

// ---------------------------------------------------------------------------
// The negotiation
// ---------------------------------------------------------------------------

/// `o` with `n` more bytes consumed.
pub open spec fn consumed_more(o: Option<(Answer, nat)>, n: nat) -> Option<(Answer, nat)> {
    match o {
        Some((a, k)) => Some((a, k + n)),
        None => None,
    }
}

/// The negotiation over the bytes that git writes, with `line` read so far:
/// each byte goes to the line reader (`feed_spec`); each line completed is
/// answered (`answer`); a reply is written and reading goes on, any other
/// answer ends the negotiation. The result is the replies written, and how
/// the negotiation ended together with the number of bytes read, or `None`
/// where the bytes end first.
pub open spec fn negotiation(line: Seq<char>, bytes: Seq<u8>) -> (Seq<Seq<u8>>, Option<(Answer, nat)>)
    decreases bytes.len(),
{
    if bytes.len() == 0 {
        (Seq::empty(), None)
    } else {
        let (next, done) = feed_spec(line, bytes[0]);
        let (replies, end) = negotiation(next, bytes.drop_first());
        match done {
            None => (replies, consumed_more(end, 1)),
            Some(l) => match answer(l) {
                Answer::Reply(b) => (seq![b] + replies, consumed_more(end, 1)),
                a => (Seq::empty(), Some((a, 1))),
            },
        }
    }
}

/// The bytes of the given lines, each followed by a newline.
pub open spec fn lines_bytes(lines: Seq<Seq<u8>>) -> Seq<u8>
    decreases lines.len(),
{
    if lines.len() == 0 {
        Seq::empty()
    } else {
        lines[0].push(10u8) + lines_bytes(lines.drop_first())
    }
}

/// No byte of `bytes` is a newline.
pub open spec fn no_newline(bytes: Seq<u8>) -> bool {
    forall|i: int| 0 <= i < bytes.len() ==> !is_newline(#[trigger] bytes[i])
}

/// Bytes without a newline only add to the line read so far.
proof fn lemma_negotiation_in_line(line: Seq<char>, l: Seq<u8>, more: Seq<u8>)
    requires
        no_newline(l),
    ensures
        negotiation(line, l + more) == ({
            let (replies, end) = negotiation(line + line_chars(l), more);
            (replies, consumed_more(end, l.len()))
        }),
    decreases l.len(),
{
    if l.len() == 0 {
        assert(l + more =~= more);
        assert(line + line_chars(l) =~= line);
        let (replies, end) = negotiation(line, more);
        match end {
            Some((a, k)) => {},
            None => {},
        }
    } else {
        let rest = l.drop_first();
        assert(!is_newline(l[0]));
        assert forall|i: int| 0 <= i < rest.len() implies !is_newline(#[trigger] rest[i]) by {
            assert(rest[i] == l[i + 1]);
        }
        assert((l + more).drop_first() =~= rest + more);
        assert((l + more)[0] == l[0]);
        lemma_negotiation_in_line(line.push(byte_char(l[0])), rest, more);
        assert(line.push(byte_char(l[0])) + line_chars(rest) =~= line + line_chars(l));
        let (replies, end) = negotiation(line + line_chars(l), more);
        match end {
            Some((a, k)) => {},
            None => {},
        }
    }
}

/// The capabilities lines answered one by one.
proof fn lemma_negotiation_capabilities(caps: Seq<Seq<u8>>, more: Seq<u8>)
    requires
        forall|i: int|
            0 <= i < caps.len() ==> no_newline(#[trigger] caps[i]) && answer(line_chars(caps[i]))
                == Answer::Reply(capabilities_reply()),
    ensures
        negotiation(Seq::empty(), lines_bytes(caps) + more) == ({
            let (replies, end) = negotiation(Seq::empty(), more);
            (
                Seq::new(caps.len(), |i: int| capabilities_reply()) + replies,
                consumed_more(end, lines_bytes(caps).len()),
            )
        }),
    decreases caps.len(),
{
    let (replies, end) = negotiation(Seq::<char>::empty(), more);
    if caps.len() == 0 {
        assert(lines_bytes(caps) + more =~= more);
        assert(Seq::new(caps.len(), |i: int| capabilities_reply()) + replies =~= replies);
        match end {
            Some((a, k)) => {},
            None => {},
        }
    } else {
        let l = caps[0];
        let others = caps.drop_first();
        assert forall|i: int|
            0 <= i < others.len() implies no_newline(#[trigger] others[i]) && answer(
                line_chars(others[i]),
            ) == Answer::Reply(capabilities_reply()) by {
            assert(others[i] == caps[i + 1]);
        }
        lemma_negotiation_capabilities(others, more);
        let after = lines_bytes(others) + more;
        let (replies2, end2) = negotiation(Seq::<char>::empty(), after);
        // `l`, then the newline, then the other lines
        assert(lines_bytes(caps) + more =~= l + (seq![10u8] + after));
        lemma_negotiation_in_line(Seq::empty(), l, seq![10u8] + after);
        assert(Seq::<char>::empty() + line_chars(l) =~= line_chars(l));
        assert((seq![10u8] + after).drop_first() =~= after);
        assert((seq![10u8] + after)[0] == 10u8);
        assert(no_newline(l));
        assert(seq![capabilities_reply()] + (Seq::new(others.len(), |i: int| capabilities_reply())
            + replies) =~= Seq::new(caps.len(), |i: int| capabilities_reply()) + replies);
        match end {
            Some((a, k)) => {},
            None => {},
        }
    }
}

/// A negotiation of `capabilities` lines and then a `connect` line: each
/// `capabilities` line is answered with `connect` and a blank line, and the
/// `connect` line ends the negotiation with its service, having read exactly
/// the bytes up to its newline; what follows is left unread.
pub proof fn law_capabilities_then_connect(
    caps: Seq<Seq<u8>>,
    connect: Seq<u8>,
    service: Seq<char>,
    rest: Seq<u8>,
)
    requires
        forall|i: int|
            0 <= i < caps.len() ==> no_newline(#[trigger] caps[i]) && words(line_chars(caps[i])).len()
                > 0 && words(line_chars(caps[i]))[0] == "capabilities"@,
        no_newline(connect),
        words(line_chars(connect)).len() >= 2,
        words(line_chars(connect))[0] == "connect"@,
        words(line_chars(connect))[1] == service,
    ensures
        negotiation(Seq::empty(), lines_bytes(caps) + connect.push(10u8) + rest) == (
            Seq::new(caps.len(), |i: int| capabilities_reply()),
            Some((Answer::Connect(service), lines_bytes(caps).len() + connect.len() + 1)),
        ),
{
    reveal_strlit("capabilities");
    reveal_strlit("connect");
    assert("connect"@.len() != "capabilities"@.len());
    assert(answer(line_chars(connect)) == Answer::Connect(service));
    let more = connect.push(10u8) + rest;
    lemma_negotiation_capabilities(caps, more);
    assert(lines_bytes(caps) + connect.push(10u8) + rest =~= lines_bytes(caps) + more);
    let after = seq![10u8] + rest;
    assert(more =~= connect + after);
    lemma_negotiation_in_line(Seq::empty(), connect, after);
    assert(Seq::<char>::empty() + line_chars(connect) =~= line_chars(connect));
    assert(after.drop_first() =~= rest);
    assert(after[0] == 10u8);
    assert(Seq::new(caps.len(), |i: int| capabilities_reply()) + Seq::<Seq<u8>>::empty()
        =~= Seq::new(caps.len(), |i: int| capabilities_reply()));
}

} // verus!
