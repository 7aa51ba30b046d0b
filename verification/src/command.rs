//! The command language: a line that starts with a slash, cut into a name
//! and its arguments.
//!
//! Words are separated by blanks. A word may hold blanks between double
//! quotes, and a backslash takes the character after it as it is.

use crate::text::{chars_of, string_of, texts};
use vstd::prelude::*;
use vstd::string::*;

verus! {

/// A command as the user typed it: its name and its arguments, in order.
#[derive(Debug, PartialEq, Eq)]
pub struct Command {
    pub name: String,
    pub args: Vec<String>,
}

/// What a command holds.
pub struct CommandView {
    pub name: Seq<char>,
    pub args: Seq<Seq<char>>,
}

impl View for Command {
    type V = CommandView;

    open spec fn view(&self) -> CommandView {
        CommandView { name: self.name@, args: texts(self.args@) }
    }
}

/// Why a line is no command.
#[derive(Clone, Copy, Debug, PartialEq, Eq, Structural)]
pub enum ParseError {
    /// The line does not start with a slash.
    NotACommand,
    /// Nothing follows the slash.
    MissingName,
    /// A double quote is never closed.
    MissingQuote,
    /// The line ends in a backslash.
    MissingEscaped,
}

/// Whether `c` separates words.
pub open spec fn is_blank(c: char) -> bool {
    c == ' ' || c == '\t' || c == '\n' || c == '\r'
}

/// Whether `c` means something to the command language.
pub open spec fn is_special(c: char) -> bool {
    is_blank(c) || c == '"' || c == '\\'
}

/// Where the reading of a line stands: the words read so far, the word
/// being read, whether a word is being read at all, and whether the place
/// is between quotes.
pub struct Scan {
    pub done: Seq<Seq<char>>,
    pub word: Seq<char>,
    pub open: bool,
    pub quoted: bool,
}

/// The state before anything is read.
pub open spec fn start() -> Scan {
    Scan { done: Seq::empty(), word: Seq::empty(), open: false, quoted: false }
}

/// The words of `s` from position `i` on, read from state `at`.
pub open spec fn scan(s: Seq<char>, i: int, at: Scan) -> Result<Seq<Seq<char>>, ParseError>
    decreases s.len() - i,
{
    if i < 0 || i >= s.len() {
        if at.quoted {
            Err(ParseError::MissingQuote)
        } else if at.open {
            Ok(at.done.push(at.word))
        } else {
            Ok(at.done)
        }
    } else if s[i] == '\\' {
        if i + 1 >= s.len() {
            Err(ParseError::MissingEscaped)
        } else {
            scan(s, i + 2, Scan { word: at.word.push(s[i + 1]), open: true, ..at })
        }
    } else if s[i] == '"' {
        scan(s, i + 1, Scan { quoted: !at.quoted, open: true, ..at })
    } else if !at.quoted && is_blank(s[i]) {
        scan(
            s,
            i + 1,
            Scan {
                done: if at.open {
                    at.done.push(at.word)
                } else {
                    at.done
                },
                word: Seq::empty(),
                open: false,
                quoted: false,
            },
        )
    } else {
        scan(s, i + 1, Scan { word: at.word.push(s[i]), open: true, ..at })
    }
}

/// The words of `s`.
pub open spec fn words_of(s: Seq<char>) -> Result<Seq<Seq<char>>, ParseError> {
    scan(s, 0, start())
}

/// The command that `line` stands for.
pub open spec fn parsed(line: Seq<char>) -> Result<CommandView, ParseError> {
    if line.len() == 0 || line[0] != '/' {
        Err(ParseError::NotACommand)
    } else {
        match words_of(line.skip(1)) {
            Err(e) => Err(e),
            Ok(words) => if words.len() == 0 {
                Err(ParseError::MissingName)
            } else {
                Ok(CommandView { name: words[0], args: words.skip(1) })
            },
        }
    }
}

/// Whether `word` has to stand between quotes: it is empty, or a
/// character of it means something to the command language.
pub open spec fn needs_quotes(word: Seq<char>) -> bool {
    word.len() == 0 || exists|i: int| 0 <= i < word.len() && is_special(#[trigger] word[i])
}

/// `word` with a backslash before every quote and backslash.
pub open spec fn escaped(word: Seq<char>) -> Seq<char>
    decreases word.len(),
{
    if word.len() == 0 {
        Seq::empty()
    } else if word[0] == '"' || word[0] == '\\' {
        seq!['\\', word[0]] + escaped(word.drop_first())
    } else {
        seq![word[0]] + escaped(word.drop_first())
    }
}

/// `word` as it is written in a line.
pub open spec fn written_word(word: Seq<char>) -> Seq<char> {
    if needs_quotes(word) {
        seq!['"'] + escaped(word) + seq!['"']
    } else {
        word
    }
}

/// `words` as they are written in a line, with one blank between two.
pub open spec fn written_words(words: Seq<Seq<char>>) -> Seq<char>
    decreases words.len(),
{
    if words.len() == 0 {
        Seq::empty()
    } else if words.len() == 1 {
        written_word(words[0])
    } else {
        written_words(words.drop_last()) + seq![' '] + written_word(words.last())
    }
}

/// The line that stands for `command`.
pub open spec fn written(command: CommandView) -> Seq<char> {
    seq!['/'] + written_words(seq![command.name] + command.args)
}

proof fn scan_plain(s: Seq<char>, i: int, at: Scan, word: Seq<char>)
    requires
        0 <= i,
        i + word.len() <= s.len(),
        s.subrange(i, i + word.len()) == word,
        forall|k: int| 0 <= k < word.len() ==> !is_special(#[trigger] word[k]),
    ensures
        scan(s, i, at) == scan(
            s,
            i + word.len(),
            Scan { word: at.word + word, open: at.open || word.len() > 0, ..at },
        ),
    decreases word.len(),
{
    if word.len() == 0 {
        assert(at.word + word =~= at.word);
    } else {
        assert(s[i] == word[0]) by {
            assert(s.subrange(i, i + word.len())[0] == s[i]);
        }
        let next = Scan { word: at.word.push(s[i]), open: true, ..at };
        assert(s.subrange(i + 1, i + 1 + word.drop_first().len()) =~= word.drop_first());
        assert forall|k: int| 0 <= k < word.drop_first().len() implies !is_special(
            #[trigger] word.drop_first()[k],
        ) by {
            assert(word.drop_first()[k] == word[k + 1]);
        }
        scan_plain(s, i + 1, next, word.drop_first());
        assert(next.word + word.drop_first() =~= at.word + word);
    }
}

proof fn scan_escaped(s: Seq<char>, i: int, at: Scan, word: Seq<char>)
    requires
        0 <= i,
        i + escaped(word).len() <= s.len(),
        s.subrange(i, i + escaped(word).len()) == escaped(word),
        at.quoted,
        at.open,
    ensures
        scan(s, i, at) == scan(s, i + escaped(word).len(), Scan { word: at.word + word, ..at }),
    decreases word.len(),
{
    if word.len() == 0 {
        assert(at.word + word =~= at.word);
    } else {
        let rest = word.drop_first();
        let whole = escaped(word);
        let next = Scan { word: at.word.push(word[0]), ..at };
        assert(next.word + rest =~= at.word + word);
        assert(s.subrange(i, i + whole.len())[0] == s[i]);
        if word[0] == '"' || word[0] == '\\' {
            assert(whole =~= seq!['\\', word[0]] + escaped(rest));
            assert(whole[0] == '\\');
            assert(whole[1] == word[0]);
            assert(s.subrange(i, i + whole.len())[1] == s[i + 1]);
            assert(s.subrange(i + 2, i + 2 + escaped(rest).len()) =~= escaped(rest)) by {
                assert forall|k: int| 0 <= k < escaped(rest).len() implies s[i + 2 + k] == escaped(
                    rest,
                )[k] by {
                    assert(s.subrange(i, i + whole.len())[k + 2] == s[i + 2 + k]);
                }
            }
            scan_escaped(s, i + 2, next, rest);
        } else {
            assert(whole =~= seq![word[0]] + escaped(rest));
            assert(whole[0] == word[0]);
            assert(s.subrange(i + 1, i + 1 + escaped(rest).len()) =~= escaped(rest)) by {
                assert forall|k: int| 0 <= k < escaped(rest).len() implies s[i + 1 + k] == escaped(
                    rest,
                )[k] by {
                    assert(s.subrange(i, i + whole.len())[k + 1] == s[i + 1 + k]);
                }
            }
            scan_escaped(s, i + 1, next, rest);
        }
    }
}

proof fn scan_word(s: Seq<char>, i: int, done: Seq<Seq<char>>, word: Seq<char>)
    requires
        0 <= i,
        i + written_word(word).len() <= s.len(),
        s.subrange(i, i + written_word(word).len()) == written_word(word),
    ensures
        scan(s, i, Scan { done, word: Seq::empty(), open: false, quoted: false }) == scan(
            s,
            i + written_word(word).len(),
            Scan { done, word, open: true, quoted: false },
        ),
{
    let at = Scan { done, word: Seq::empty(), open: false, quoted: false };
    let text = written_word(word);
    if needs_quotes(word) {
        let inner = escaped(word);
        assert(text =~= seq!['"'] + inner + seq!['"']);
        assert(s.subrange(i, i + text.len())[0] == s[i]);
        assert(text[0] == '"');
        let opened = Scan { done, word: Seq::empty(), open: true, quoted: true };
        assert(s.subrange(i + 1, i + 1 + inner.len()) =~= inner) by {
            assert forall|k: int| 0 <= k < inner.len() implies s[i + 1 + k] == inner[k] by {
                assert(s.subrange(i, i + text.len())[k + 1] == s[i + 1 + k]);
                assert(text[k + 1] == inner[k]);
            }
        }
        scan_escaped(s, i + 1, opened, word);
        let filled = Scan { word: opened.word + word, ..opened };
        assert(opened.word + word =~= word);
        let last = i + 1 + inner.len();
        assert(s[last] == '"') by {
            assert(s.subrange(i, i + text.len())[last - i] == s[last]);
            assert(text[last - i] == '"');
        }
        assert(scan(s, last, filled) == scan(
            s,
            last + 1,
            Scan { done, word, open: true, quoted: false },
        ));
    } else {
        assert forall|k: int| 0 <= k < word.len() implies !is_special(#[trigger] word[k]) by {}
        scan_plain(s, i, at, word);
        assert(at.word + word =~= word);
    }
}

proof fn scan_words(s: Seq<char>, words: Seq<Seq<char>>)
    requires
        words.len() > 0,
        written_words(words).len() <= s.len(),
        s.subrange(0, written_words(words).len() as int) == written_words(words),
    ensures
        scan(s, 0, start()) == scan(
            s,
            written_words(words).len() as int,
            Scan { done: words.drop_last(), word: words.last(), open: true, quoted: false },
        ),
    decreases words.len(),
{
    let text = written_words(words);
    if words.len() == 1 {
        assert(words.drop_last() =~= Seq::<Seq<char>>::empty());
        scan_word(s, 0, Seq::empty(), words[0]);
    } else {
        let before = words.drop_last();
        let head = written_words(before);
        let tail = written_word(words.last());
        assert(text =~= head + seq![' '] + tail);
        assert(s.subrange(0, head.len() as int) =~= head) by {
            assert forall|k: int| 0 <= k < head.len() implies s[k] == head[k] by {
                assert(s.subrange(0, text.len() as int)[k] == s[k]);
            }
        }
        scan_words(s, before);
        let n = head.len() as int;
        assert(s[n] == ' ') by {
            assert(s.subrange(0, text.len() as int)[n] == s[n]);
            assert(text[n] == ' ');
        }
        assert(before.drop_last().push(before.last()) =~= before);
        assert(s.subrange(n + 1, n + 1 + tail.len()) =~= tail) by {
            assert forall|k: int| 0 <= k < tail.len() implies s[n + 1 + k] == tail[k] by {
                assert(s.subrange(0, text.len() as int)[n + 1 + k] == s[n + 1 + k]);
                assert(text[n + 1 + k] == tail[k]);
            }
        }
        scan_word(s, n + 1, before, words.last());
    }
}

/// Writing a command and reading the line again gives the command back:
/// its name and its arguments, whatever characters they hold.
pub proof fn round_trip(command: CommandView)
    ensures
        parsed(written(command)) == Ok::<CommandView, ParseError>(command),
{
    let words = seq![command.name] + command.args;
    let line = written(command);
    let rest = line.skip(1);
    assert(rest =~= written_words(words));
    assert(rest.subrange(0, rest.len() as int) =~= rest);
    scan_words(rest, words);
    assert(words.drop_last().push(words.last()) =~= words);
    assert(words[0] == command.name);
    assert(words.skip(1) =~= command.args);
    assert(line[0] == '/');
}

impl ParseError {
    /// The error in words.
    pub open spec fn text(self) -> Seq<char> {
        match self {
            ParseError::NotACommand => "Not a command"@,
            ParseError::MissingName => "Missing command name"@,
            ParseError::MissingQuote => "Missing closing quote"@,
            ParseError::MissingEscaped => "Missing escaped char"@,
        }
    }

    /// The error in words.
    pub fn to_string(&self) -> (s: String)
        ensures
            s@ == self.text(),
    {
        match self {
            ParseError::NotACommand => String::from_str("Not a command"),
            ParseError::MissingName => String::from_str("Missing command name"),
            ParseError::MissingQuote => String::from_str("Missing closing quote"),
            ParseError::MissingEscaped => String::from_str("Missing escaped char"),
        }
    }
}

/// A copy of a list of strings.
pub fn copy_texts(list: &Vec<String>) -> (copy: Vec<String>)
    ensures
        copy@ == list@,
{
    let mut copy: Vec<String> = Vec::new();
    let mut i: usize = 0;
    while i < list.len()
        invariant
            i <= list.len(),
            copy@ == list@.subrange(0, i as int),
        decreases list.len() - i,
    {
        copy.push(list[i].clone());
        i = i + 1;
        proof {
            assert(copy@ =~= list@.subrange(0, i as int));
        }
    }
    proof {
        assert(copy@ =~= list@);
    }
    copy
}

impl Clone for Command {
    fn clone(&self) -> (copy: Self)
        ensures
            copy.name == self.name,
            copy.args@ == self.args@,
            copy@ == self@,
    {
        Command { name: self.name.clone(), args: copy_texts(&self.args) }
    }
}

fn blank(c: char) -> (b: bool)
    ensures
        b == is_blank(c),
{
    c == ' ' || c == '\t' || c == '\n' || c == '\r'
}

/// Reads the words of `s`.
fn read_words(s: &Vec<char>, from: usize) -> (r: Result<Vec<String>, ParseError>)
    requires
        from <= s.len(),
    ensures
        match r {
            Ok(words) => scan(s@, from as int, start()) == Ok::<Seq<Seq<char>>, ParseError>(
                texts(words@),
            ),
            Err(e) => scan(s@, from as int, start()) == Err::<Seq<Seq<char>>, ParseError>(e),
        },
{
    let mut done: Vec<String> = Vec::new();
    let mut word: Vec<char> = Vec::new();
    let mut open = false;
    let mut quoted = false;
    let mut i: usize = from;
    proof {
        assert(texts(done@) =~= Seq::<Seq<char>>::empty());
    }
    while i < s.len()
        invariant
            from <= i <= s.len(),
            scan(s@, from as int, start()) == scan(
                s@,
                i as int,
                Scan { done: texts(done@), word: word@, open, quoted },
            ),
        decreases s.len() - i,
    {
        let c = s[i];
        if c == '\\' {
            if i + 1 >= s.len() {
                return Err(ParseError::MissingEscaped);
            }
            word.push(s[i + 1]);
            open = true;
            i = i + 2;
        } else if c == '"' {
            quoted = !quoted;
            open = true;
            i = i + 1;
        } else if !quoted && blank(c) {
            if open {
                let ghost before = texts(done@);
                done.push(string_of(&word));
                proof {
                    assert(texts(done@) =~= before.push(word@));
                }
            }
            word = Vec::new();
            open = false;
            i = i + 1;
        } else {
            word.push(c);
            open = true;
            i = i + 1;
        }
    }
    if quoted {
        Err(ParseError::MissingQuote)
    } else {
        if open {
            let ghost before = texts(done@);
            done.push(string_of(&word));
            proof {
                assert(texts(done@) =~= before.push(word@));
            }
        }
        Ok(done)
    }
}

/// Appends `word` to `out` as it is written in a line.
fn write_word(out: &mut Vec<char>, word: &Vec<char>)
    ensures
        final(out)@ == old(out)@ + written_word(word@),
{
    let mut quote = word.len() == 0;
    let mut i: usize = 0;
    while i < word.len()
        invariant
            i <= word.len(),
            quote == (word.len() == 0 || exists|k: int|
                0 <= k < i && is_special(#[trigger] word@[k])),
        decreases word.len() - i,
    {
        let c = word[i];
        if blank(c) || c == '"' || c == '\\' {
            quote = true;
        }
        i = i + 1;
    }
    if quote {
        out.push('"');
        let ghost head = out@;
        let mut j: usize = 0;
        proof {
            assert(word@.subrange(0, 0) =~= Seq::<char>::empty());
            assert(out@ =~= head + escaped(word@.subrange(0, 0)));
        }
        while j < word.len()
            invariant
                j <= word.len(),
                out@ == head + escaped(word@.subrange(0, j as int)),
            decreases word.len() - j,
        {
            let c = word[j];
            proof {
                escaped_push(word@.subrange(0, j as int), c);
                assert(word@.subrange(0, j + 1) =~= word@.subrange(0, j as int).push(c));
            }
            if c == '"' || c == '\\' {
                out.push('\\');
            }
            out.push(c);
            j = j + 1;
            proof {
                assert(out@ =~= head + escaped(word@.subrange(0, j as int)));
            }
        }
        out.push('"');
        proof {
            assert(word@.subrange(0, j as int) =~= word@);
            assert(out@ =~= old(out)@ + written_word(word@));
        }
    } else {
        let mut j: usize = 0;
        proof {
            assert(out@ =~= old(out)@ + word@.subrange(0, 0));
        }
        while j < word.len()
            invariant
                j <= word.len(),
                out@ == old(out)@ + word@.subrange(0, j as int),
            decreases word.len() - j,
        {
            out.push(word[j]);
            j = j + 1;
            proof {
                assert(out@ =~= old(out)@ + word@.subrange(0, j as int));
            }
        }
        proof {
            assert(word@.subrange(0, j as int) =~= word@);
        }
    }
}

proof fn escaped_push(word: Seq<char>, c: char)
    ensures
        escaped(word.push(c)) == escaped(word) + (if c == '"' || c == '\\' {
            seq!['\\', c]
        } else {
            seq![c]
        }),
    decreases word.len(),
{
    let piece = if c == '"' || c == '\\' {
        seq!['\\', c]
    } else {
        seq![c]
    };
    if word.len() == 0 {
        assert(word.push(c).drop_first() =~= Seq::<char>::empty());
        assert(word.push(c)[0] == c);
        assert(escaped(word.push(c).drop_first()) =~= Seq::<char>::empty());
        assert(escaped(word.push(c)) =~= piece + escaped(word.push(c).drop_first()));
        assert(escaped(word.push(c)) =~= piece);
        assert(escaped(word) + piece =~= piece);
    } else {
        assert(word.push(c).drop_first() =~= word.drop_first().push(c));
        escaped_push(word.drop_first(), c);
        assert(word.push(c)[0] == word[0]);
        let first = if word[0] == '"' || word[0] == '\\' {
            seq!['\\', word[0]]
        } else {
            seq![word[0]]
        };
        assert(escaped(word.push(c)) =~= first + (escaped(word.drop_first()) + piece));
        assert(escaped(word) =~= first + escaped(word.drop_first()));
        assert(first + (escaped(word.drop_first()) + piece) =~= escaped(word) + piece);
    }
}

/// Reading words fails only for a quote that is never closed or for a
/// backslash at the end.
pub proof fn scan_fails(s: Seq<char>, i: int, at: Scan)
    ensures
        scan(s, i, at) matches Err(e) ==> e == ParseError::MissingQuote || e
            == ParseError::MissingEscaped,
    decreases s.len() - i,
{
    if i < 0 || i >= s.len() {
    } else if s[i] == '\\' {
        if i + 1 < s.len() {
            scan_fails(s, i + 2, Scan { word: at.word.push(s[i + 1]), open: true, ..at });
        }
    } else if s[i] == '"' {
        scan_fails(s, i + 1, Scan { quoted: !at.quoted, open: true, ..at });
    } else if !at.quoted && is_blank(s[i]) {
        scan_fails(
            s,
            i + 1,
            Scan {
                done: if at.open {
                    at.done.push(at.word)
                } else {
                    at.done
                },
                word: Seq::empty(),
                open: false,
                quoted: false,
            },
        );
    } else {
        scan_fails(s, i + 1, Scan { word: at.word.push(s[i]), open: true, ..at });
    }
}

impl Command {
    /// Reads a command from the line that the user typed. Only a line
    /// that does not start with a slash is no command at all.
    pub fn try_from(line: &str) -> (r: Result<Command, ParseError>)
        ensures
            match r {
                Ok(command) => parsed(line@) == Ok::<CommandView, ParseError>(command@),
                Err(e) => parsed(line@) == Err::<CommandView, ParseError>(e),
            },
            r == Err::<Command, ParseError>(ParseError::NotACommand) <==> (line@.len() == 0
                || line@[0] != '/'),
    {
        let chars = chars_of(line);
        if chars.len() == 0 || chars[0] != '/' {
            return Err(ParseError::NotACommand);
        }
        proof {
            scan_skip(chars@);
            scan_fails(chars@, 1, start());
        }
        match read_words(&chars, 1) {
            Err(e) => Err(e),
            Ok(mut words) => {
                if words.len() == 0 {
                    Err(ParseError::MissingName)
                } else {
                    let ghost all = texts(words@);
                    let name = words.remove(0);
                    proof {
                        assert(texts(words@) =~= all.skip(1));
                    }
                    Ok(Command { name, args: words })
                }
            },
        }
    }

    /// The line that stands for the command.
    pub fn to_string(&self) -> (line: String)
        ensures
            line@ == written(self@),
    {
        let mut out: Vec<char> = Vec::new();
        out.push('/');
        let name = chars_of(self.name.as_str());
        write_word(&mut out, &name);
        let ghost all = seq![self.name@] + texts(self.args@);
        let mut i: usize = 0;
        proof {
            assert(all.subrange(0, 1) =~= seq![self.name@]);
            assert(out@ =~= seq!['/'] + written_words(all.subrange(0, 1)));
        }
        while i < self.args.len()
            invariant
                i <= self.args.len(),
                all == seq![self.name@] + texts(self.args@),
                out@ == seq!['/'] + written_words(all.subrange(0, i + 1)),
            decreases self.args.len() - i,
        {
            let arg = chars_of(self.args[i].as_str());
            out.push(' ');
            write_word(&mut out, &arg);
            i = i + 1;
            proof {
                let upto = all.subrange(0, i + 1);
                assert(upto.drop_last() =~= all.subrange(0, i as int));
                assert(upto.last() == arg@);
                assert(out@ =~= seq!['/'] + written_words(upto));
            }
        }
        proof {
            assert(all.subrange(0, i + 1) =~= all);
        }
        string_of(&out)
    }
}

/// Reading a line from its second character on is reading what is left
/// when the first character is taken away.
proof fn scan_skip(s: Seq<char>)
    requires
        s.len() > 0,
    ensures
        scan(s, 1, start()) == scan(s.skip(1), 0, start()),
{
    scan_shift(s, 1, start());
}

proof fn scan_shift(s: Seq<char>, i: int, at: Scan)
    requires
        1 <= i,
        s.len() > 0,
    ensures
        scan(s, i, at) == scan(s.skip(1), i - 1, at),
    decreases s.len() - i,
{
    let t = s.skip(1);
    if i >= s.len() {
    } else {
        assert(t[i - 1] == s[i]);
        if s[i] == '\\' {
            if i + 1 >= s.len() {
            } else {
                assert(t[i] == s[i + 1]);
                scan_shift(s, i + 2, Scan { word: at.word.push(s[i + 1]), open: true, ..at });
            }
        } else if s[i] == '"' {
            scan_shift(s, i + 1, Scan { quoted: !at.quoted, open: true, ..at });
        } else if !at.quoted && is_blank(s[i]) {
            scan_shift(
                s,
                i + 1,
                Scan {
                    done: if at.open {
                        at.done.push(at.word)
                    } else {
                        at.done
                    },
                    word: Seq::empty(),
                    open: false,
                    quoted: false,
                },
            );
        } else {
            scan_shift(s, i + 1, Scan { word: at.word.push(s[i]), open: true, ..at });
        }
    }
}

} // verus!
