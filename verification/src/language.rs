//! Parse shell source without performing I/O or starting a process.

use vstd::prelude::*;
use vstd::string::*;

verus! {

/// Parsed shell source consumed directly by the interpreter.
///
/// This is the initial command AST, not an intermediate compilation stage.
#[derive(Debug, PartialEq, Eq)]
pub enum ShellIr {
    Empty,
    Command { program: String, arguments: Vec<String> },
}

/// The words a parsed line stands for: none for an empty line, the program
/// followed by its arguments for a command.
pub open spec fn ir_words(ir: ShellIr) -> Seq<Seq<char>> {
    match ir {
        ShellIr::Empty => Seq::empty(),
        ShellIr::Command { program, arguments } => seq![program@] + arguments.deep_view(),
    }
}

/// A parse error that can be displayed through the shell's stderr descriptor.
#[derive(Debug)]
pub struct ShellParseError(String);

impl ShellParseError {
    /// The text of the error.
    pub closed spec fn text(&self) -> Seq<char> {
        self.0@
    }

    pub fn new(message: &str) -> (e: Self)
        ensures
            e.text() == message@,
    {
        ShellParseError(String::from_str(message))
    }

    /// The message shown when the error is displayed.
    pub fn message(&self) -> (m: String)
        ensures
            m@ == self.text(),
    {
        self.0.clone()
    }
}

/// What `shlex::split` returns for a source: the words of a POSIX-shell-like
/// split, or nothing when the source ends inside a quotation or right after
/// an unescaped backslash.
pub uninterp spec fn shlex_split(source: Seq<char>) -> Option<Seq<Seq<char>>>;

/// Whether `c` separates words.
pub open spec fn is_blank(c: char) -> bool {
    c == ' ' || c == '\t' || c == '\n'
}

/// Whether `c` is neither a quote, a backslash nor a comment sign: shell
/// syntax such as `|`, `>` and `;` included, such a character stands for
/// itself.
pub open spec fn is_plain(c: char) -> bool {
    c != '"' && c != '\'' && c != '\\' && c != '#'
}

/// The words of a text: its maximal runs of characters that are not blank.
pub open spec fn blank_separated_words(s: Seq<char>) -> Seq<Seq<char>>
    decreases s.len(),
{
    if s.len() == 0 {
        Seq::empty()
    } else {
        let rest = blank_separated_words(s.drop_last());
        let c = s.last();
        if is_blank(c) {
            rest
        } else if s.len() >= 2 && !is_blank(s[s.len() - 2]) {
            rest.drop_last().push(rest.last().push(c))
        } else {
            rest.push(seq![c])
        }
    }
}

/// Every word of a text is non-empty and holds no space, tab or newline;
/// a text that ends in a character other than those has at least one word.
pub proof fn words_are_nonempty_and_unbroken(s: Seq<char>)
    ensures
        forall|i: int| 0 <= i < blank_separated_words(s).len() ==> #[trigger] blank_separated_words(s)[i].len() > 0,
        forall|i: int, j: int|
            0 <= i < blank_separated_words(s).len() && 0 <= j < blank_separated_words(s)[i].len() ==> {
                let c = #[trigger] blank_separated_words(s)[i][j];
                c != ' ' && c != '\t' && c != '\n'
            },
        s.len() > 0 && s.last() != ' ' && s.last() != '\t' && s.last() != '\n' ==> blank_separated_words(s).len()
            > 0,
    decreases s.len(),
{
    if s.len() > 0 {
        let rest = blank_separated_words(s.drop_last());
        words_are_nonempty_and_unbroken(s.drop_last());
        let c = s.last();
        if !is_blank(c) {
            if s.len() >= 2 && !is_blank(s[s.len() - 2]) {
                assert(s.drop_last().last() == s[s.len() - 2]);
                let w = rest.last().push(c);
                let words = rest.drop_last().push(w);
                assert forall|i: int, j: int| 0 <= i < words.len() && 0 <= j < words[i].len() implies !is_blank(
                    words[i][j],
                ) by {
                    if i < words.len() - 1 {
                        assert(words[i] == rest[i]);
                    } else if j < rest.last().len() {
                        assert(words[i][j] == rest[rest.len() - 1][j]);
                    }
                }
            } else {
                let words = rest.push(seq![c]);
                assert forall|i: int, j: int| 0 <= i < words.len() && 0 <= j < words[i].len() implies !is_blank(
                    words[i][j],
                ) by {
                    if i < rest.len() {
                        assert(words[i] == rest[i]);
                    }
                }
            }
        }
    }
}

/// A non-empty text without spaces, tabs or newlines is a single word.
pub proof fn unbroken_text_is_one_word(s: Seq<char>)
    requires
        s.len() > 0,
        forall|i: int| 0 <= i < s.len() ==> #[trigger] s[i] != ' ' && s[i] != '\t' && s[i] != '\n',
    ensures
        blank_separated_words(s) == seq![s],
    decreases s.len(),
{
    if s.len() == 1 {
        assert(blank_separated_words(s.drop_last()) == Seq::<Seq<char>>::empty());
        assert(seq![s.last()] =~= s);
        assert(Seq::<Seq<char>>::empty().push(seq![s.last()]) =~= seq![s]);
    } else {
        unbroken_text_is_one_word(s.drop_last());
        assert(s[s.len() - 2] == s.drop_last()[s.len() - 2]);
        assert(s.drop_last().push(s.last()) =~= s);
        assert(seq![s.drop_last()].drop_last().push(s.drop_last().push(s.last())) =~= seq![s]);
    }
}

/// Words are split at every space, tab or newline: the words of two texts
/// joined by one of them are the words of the first text followed by the
/// words of the second.
pub proof fn words_split_at_blanks(a: Seq<char>, sep: char, b: Seq<char>)
    requires
        sep == ' ' || sep == '\t' || sep == '\n',
    ensures
        blank_separated_words(a + seq![sep] + b) == blank_separated_words(a) + blank_separated_words(b),
    decreases b.len(),
{
    let s = a + seq![sep] + b;
    if b.len() == 0 {
        assert(s.drop_last() =~= a);
        assert(blank_separated_words(a) + blank_separated_words(b) =~= blank_separated_words(a));
    } else {
        let b0 = b.drop_last();
        words_split_at_blanks(a, sep, b0);
        assert(s.drop_last() =~= a + seq![sep] + b0);
        assert(s.last() == b.last());
        let wa = blank_separated_words(a);
        let w0 = blank_separated_words(b0);
        let c = b.last();
        if !is_blank(c) {
            if b.len() >= 2 && !is_blank(b[b.len() - 2]) {
                assert(s[s.len() - 2] == b[b.len() - 2]);
                assert(b0.last() == b[b.len() - 2]);
                words_are_nonempty_and_unbroken(b0);
                assert((wa + w0).drop_last().push((wa + w0).last().push(c)) =~= wa + w0.drop_last().push(
                    w0.last().push(c),
                ));
            } else {
                if b.len() == 1 {
                    assert(s[s.len() - 2] == sep);
                } else {
                    assert(s[s.len() - 2] == b[b.len() - 2]);
                }
                assert((wa + w0).push(seq![c]) =~= wa + w0.push(seq![c]));
            }
        }
    }
}

/// Calls `shlex::split`, which splits a line into words with POSIX-shell
/// quoting, escapes and comments; its result is taken to be `shlex_split`
/// of the source. `shlex::split` treats space, tab and newline as word
/// separators and every other character except quotes, backslash and `#`
/// as part of a word, so a line without those characters always splits,
/// into its blank-separated words.
#[verifier::external_body]
fn split_words(source: &str) -> (words: Option<Vec<String>>)
    ensures
        words.deep_view() == shlex_split(source@),
        (forall|i: int| 0 <= i < source@.len() ==> is_plain(#[trigger] source@[i])) ==> words.deep_view() == Some(
            blank_separated_words(source@),
        ),
{
    shlex::split(source)
}

impl ShellIr {
    /// Builds the command whose words are `words`: the first word names the
    /// program, the rest are its arguments.
    pub fn from_words(words: Vec<String>) -> (ir: ShellIr)
        ensures
            ir_words(ir) == words.deep_view(),
    {
        let mut words = words;
        if words.len() == 0 {
            ShellIr::Empty
        } else {
            let ghost all = words.deep_view();
            let program = words.remove(0);
            proof {
                assert(all == seq![program@] + words.deep_view());
            }
            ShellIr::Command { program, arguments: words }
        }
    }

    /// Turns the result of a word split into a parsed line; a failed split
    /// is an unmatched quote.
    pub fn from_split(split: Option<Vec<String>>) -> (r: Result<ShellIr, ShellParseError>)
        ensures
            r is Ok <==> split is Some,
            r matches Ok(ir) ==> ir_words(ir) == split.deep_view()->0,
            r matches Err(e) ==> e.text() == "unmatched quote"@,
    {
        match split {
            Some(words) => Ok(ShellIr::from_words(words)),
            None => Err(ShellParseError::new("unmatched quote")),
        }
    }
}

/// A command's program is its first word, and its arguments are the words
/// after it, without the program name.
pub proof fn arguments_exclude_the_program(ir: ShellIr)
    requires
        ir is Command,
    ensures
        ir_words(ir).len() >= 1,
        ir_words(ir)[0] == ir->program@,
        ir_words(ir).drop_first() == ir->arguments.deep_view(),
{
    assert(ir_words(ir).drop_first() =~= ir->arguments.deep_view());
}

/// A swappable, side-effect-free parser for a shell's input language.
pub trait ShellLanguage {
    fn parse(&self, source: &str) -> Result<ShellIr, ShellParseError>;
}

/// The bundled single-command language; richer grammars may replace it.
#[derive(Debug, Default)]
pub struct SimpleShellLanguage;

impl ShellLanguage for SimpleShellLanguage {
    /// Splits `source` into shell words; the first is the program. A line
    /// without quotes, backslashes or `#` always parses, to its
    /// blank-separated words: `|`, `>` and `;` are ordinary arguments.
    fn parse(&self, source: &str) -> (r: Result<ShellIr, ShellParseError>)
        ensures
            r is Ok <==> shlex_split(source@) is Some,
            r matches Ok(ir) ==> ir_words(ir) == shlex_split(source@)->0,
            r matches Err(e) ==> e.text() == "unmatched quote"@,
            (forall|i: int| 0 <= i < source@.len() ==> is_plain(#[trigger] source@[i])) ==> (r matches Ok(ir)
                && ir_words(ir) == blank_separated_words(source@)),
    {
        ShellIr::from_split(split_words(source))
    }
}

} // verus!
