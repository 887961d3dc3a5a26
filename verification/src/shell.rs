//! Rendering an argument vector as one line for a POSIX shell.
//!
//! A remote session takes its command as a single string that the remote
//! shell splits into words again. Every argument is therefore wrapped in
//! single quotes, inside which the shell takes each character literally;
//! a single quote inside an argument closes the quoting, is written
//! escaped, and opens the quoting again. The words that a shell reads from
//! the rendered line are the arguments that went in: that is proved here,
//! against a model of how a shell splits a line.

use crate::command::strings_view;
use crate::text::to_chars;
use vstd::prelude::*;
use vstd::string::StringExecFns;

verus! {

/// What stands for the character `c` inside single quotes.
pub open spec fn escaped_char(c: char) -> Seq<char> {
    if c == '\'' {
        seq!['\'', '\\', '\'', '\'']
    } else {
        seq![c]
    }
}

/// What stands for the characters `s` inside single quotes.
pub open spec fn escaped(s: Seq<char>) -> Seq<char>
    decreases s.len(),
{
    if s.len() == 0 {
        Seq::empty()
    } else {
        escaped_char(s[0]) + escaped(s.drop_first())
    }
}

/// The argument `s` as one word of a shell line: in single quotes, every
/// single quote of its own escaped.
pub open spec fn quoted(s: Seq<char>) -> Seq<char> {
    seq!['\''] + escaped(s) + seq!['\'']
}

/// The arguments `argv` as one shell line: each quoted, a space between
/// one and the next.
pub open spec fn command_line(argv: Seq<Seq<char>>) -> Seq<char>
    decreases argv.len(),
{
    if argv.len() == 0 {
        Seq::empty()
    } else if argv.len() == 1 {
        quoted(argv[0])
    } else {
        quoted(argv[0]) + seq![' '] + command_line(argv.drop_first())
    }
}

/// Escaping goes character by character.
pub proof fn lemma_escaped_push(s: Seq<char>, c: char)
    ensures
        escaped(s.push(c)) == escaped(s) + escaped_char(c),
    decreases s.len(),
{
    if s.len() == 0 {
        let one = s.push(c);
        assert(one[0] == c);
        assert(one.drop_first().len() == 0);
        assert(escaped(one.drop_first()) =~= Seq::<char>::empty());
        assert(escaped(one) =~= escaped_char(c) + Seq::<char>::empty());
        assert(escaped(s) + escaped_char(c) =~= escaped_char(c));
    } else {
        assert(s.push(c)[0] == s[0]);
        assert(s.push(c).drop_first() =~= s.drop_first().push(c));
        lemma_escaped_push(s.drop_first(), c);
        assert(escaped_char(s[0]) + (escaped(s.drop_first()) + escaped_char(c)) =~= (
        escaped_char(s[0]) + escaped(s.drop_first())) + escaped_char(c));
    }
}

/// A line grows by one argument at its end: a space where arguments stand
/// before it, then the argument quoted.
pub proof fn lemma_command_line_push(argv: Seq<Seq<char>>, arg: Seq<char>)
    ensures
        command_line(argv.push(arg)) == if argv.len() == 0 {
            quoted(arg)
        } else {
            command_line(argv) + seq![' '] + quoted(arg)
        },
    decreases argv.len(),
{
    let more = argv.push(arg);
    if argv.len() == 0 {
        assert(more[0] == arg);
    } else {
        assert(more[0] == argv[0]);
        assert(more.drop_first() =~= argv.drop_first().push(arg));
        lemma_command_line_push(argv.drop_first(), arg);
        if argv.len() == 1 {
            assert(argv.drop_first().len() == 0);
        } else {
            assert(quoted(argv[0]) + seq![' '] + (command_line(argv.drop_first()) + seq![' ']
                + quoted(arg)) =~= (quoted(argv[0]) + seq![' '] + command_line(
                argv.drop_first(),
            )) + seq![' '] + quoted(arg));
        }
    }
}

/// Quotes one argument for a POSIX shell.
pub fn shell_quote(arg: &str) -> (word: String)
    ensures
        word@ == quoted(arg@),
{
    let chars = to_chars(arg);
    let mut word = String::new();
    word.push('\'');
    let mut i: usize = 0;
    assert(chars@.take(0) =~= Seq::<char>::empty());
    assert(word@ =~= seq!['\''] + escaped(chars@.take(0)));
    while i < chars.len()
        invariant
            i <= chars.len(),
            word@ == seq!['\''] + escaped(chars@.take(i as int)),
        decreases chars.len() - i,
    {
        let c = chars[i];
        let ghost before = word@;
        if c == '\'' {
            word.push('\'');
            word.push('\\');
            word.push('\'');
            word.push('\'');
        } else {
            word.push(c);
        }
        proof {
            assert(word@ =~= before + escaped_char(c));
            assert(chars@.take(i + 1) =~= chars@.take(i as int).push(c));
            lemma_escaped_push(chars@.take(i as int), c);
            assert(seq!['\''] + (escaped(chars@.take(i as int)) + escaped_char(c)) =~= (seq!['\'']
                + escaped(chars@.take(i as int))) + escaped_char(c));
        }
        i += 1;
    }
    word.push('\'');
    proof {
        assert(chars@.take(chars.len() as int) =~= chars@);
        assert(word@ =~= quoted(arg@));
    }
    word
}

/// Renders an argument vector as one line for a POSIX shell, from which
/// the shell reads the same arguments again.
pub fn render_command_line(argv: &Vec<String>) -> (line: String)
    ensures
        line@ == command_line(strings_view(argv@)),
{
    let ghost args = strings_view(argv@);
    let mut line = String::new();
    let mut i: usize = 0;
    assert(args.take(0) =~= Seq::<Seq<char>>::empty());
    while i < argv.len()
        invariant
            i <= argv.len(),
            args == strings_view(argv@),
            line@ == command_line(args.take(i as int)),
        decreases argv.len() - i,
    {
        if i > 0 {
            line.push(' ');
        }
        let word = shell_quote(argv[i].as_str());
        let ghost before = line@;
        line.append(word.as_str());
        proof {
            assert(args.take(i + 1) =~= args.take(i as int).push(args[i as int]));
            lemma_command_line_push(args.take(i as int), args[i as int]);
            if i == 0 {
                assert(before + word@ =~= word@);
            } else {
                assert(command_line(args.take(i as int)).push(' ') + word@ =~= command_line(
                    args.take(i as int),
                ) + seq![' '] + word@);
            }
        }
        i += 1;
    }
    assert(args.take(argv.len() as int) =~= args);
    line
}

/// Whether a shell takes `c` literally where it stands outside quotes and
/// after no backslash: letters, digits and a few marks that mean nothing
/// to it.
pub open spec fn is_plain(c: char) -> bool {
    ||| 'a' <= c <= 'z'
    ||| 'A' <= c <= 'Z'
    ||| '0' <= c <= '9'
    ||| c == '_'
    ||| c == '-'
    ||| c == '.'
    ||| c == '/'
    ||| c == ':'
    ||| c == '='
    ||| c == '@'
    ||| c == '%'
    ||| c == '+'
    ||| c == ','
}

/// The word under way with `c` added, where `cur` is the word under way,
/// if there is one.
pub open spec fn word_with(cur: Option<Seq<char>>, c: char) -> Option<Seq<char>> {
    match cur {
        Some(w) => Some(w.push(c)),
        None => Some(seq![c]),
    }
}

/// The words read so far with the word under way closed, if there is one.
pub open spec fn words_with(words: Seq<Seq<char>>, cur: Option<Seq<char>>) -> Seq<Seq<char>> {
    match cur {
        Some(w) => words.push(w),
        None => words,
    }
}

/// The words that a POSIX shell reads from `rest`, where `words` have been
/// read already, `cur` is the word under way, and `quoting` says whether
/// a single quote is open.
///
/// Inside single quotes every character is taken as it is, up to the
/// closing quote. Outside, a single quote opens quoting, a backslash makes
/// the next character literal, a space ends the word under way, and a
/// plain character is taken as it is. `None` for a line that ends inside
/// quotes or after a backslash, and for one that holds, outside quotes,
/// anything else: a character that the shell gives a meaning of its own.
pub open spec fn shell_words(
    rest: Seq<char>,
    cur: Option<Seq<char>>,
    quoting: bool,
    words: Seq<Seq<char>>,
) -> Option<Seq<Seq<char>>>
    decreases rest.len(),
{
    if rest.len() == 0 {
        if quoting {
            None
        } else {
            Some(words_with(words, cur))
        }
    } else {
        let c = rest[0];
        let tail = rest.drop_first();
        if quoting {
            if c == '\'' {
                shell_words(tail, cur, false, words)
            } else {
                shell_words(tail, word_with(cur, c), true, words)
            }
        } else if c == '\'' {
            shell_words(
                tail,
                match cur {
                    Some(w) => Some(w),
                    None => Some(Seq::empty()),
                },
                true,
                words,
            )
        } else if c == '\\' {
            if tail.len() == 0 || tail[0] == '\n' {
                None
            } else {
                shell_words(tail.drop_first(), word_with(cur, tail[0]), false, words)
            }
        } else if c == ' ' {
            shell_words(tail, None, false, words_with(words, cur))
        } else if is_plain(c) {
            shell_words(tail, word_with(cur, c), false, words)
        } else {
            None
        }
    }
}

/// Inside quotes, the escaped form of `s` followed by a closing quote adds
/// exactly `s` to the word under way and leaves the shell outside quotes.
proof fn lemma_quoted_body(s: Seq<char>, tail: Seq<char>, w: Seq<char>, words: Seq<Seq<char>>)
    ensures
        shell_words(escaped(s) + seq!['\''] + tail, Some(w), true, words) == shell_words(
            tail,
            Some(w + s),
            false,
            words,
        ),
    decreases s.len(),
{
    let line = escaped(s) + seq!['\''] + tail;
    if s.len() == 0 {
        assert(line[0] == '\'');
        assert(line.drop_first() =~= tail);
        assert(w + s =~= w);
    } else {
        let c = s[0];
        let after = escaped(s.drop_first()) + seq!['\''] + tail;
        lemma_quoted_body(s.drop_first(), tail, w.push(c), words);
        assert(w.push(c) + s.drop_first() =~= w + s);
        if c == '\'' {
            // ' closes, \' is a literal quote, ' opens again
            assert(line =~= seq!['\'', '\\', '\'', '\''] + after);
            let l1 = line.drop_first();
            assert(l1 =~= seq!['\\', '\'', '\''] + after);
            assert(l1[0] == '\\');
            let l2 = l1.drop_first();
            assert(l2[0] == '\'');
            let l3 = l2.drop_first();
            assert(l3 =~= seq!['\''] + after);
            assert(l3[0] == '\'');
            assert(l3.drop_first() =~= after);
            assert(shell_words(line, Some(w), true, words) == shell_words(
                l1,
                Some(w),
                false,
                words,
            ));
            assert(shell_words(l1, Some(w), false, words) == shell_words(
                l3,
                Some(w.push('\'')),
                false,
                words,
            ));
            assert(shell_words(l3, Some(w.push('\'')), false, words) == shell_words(
                after,
                Some(w.push('\'')),
                true,
                words,
            ));
        } else {
            assert(line =~= seq![c] + after);
            assert(line[0] == c);
            assert(line.drop_first() =~= after);
        }
    }
}

/// Outside quotes and between words, a quoted argument followed by `tail`
/// is read as the word `s`, still under way when `tail` begins.
proof fn lemma_quoted_word(s: Seq<char>, tail: Seq<char>, words: Seq<Seq<char>>)
    ensures
        shell_words(quoted(s) + tail, None, false, words) == shell_words(
            tail,
            Some(s),
            false,
            words,
        ),
{
    let line = quoted(s) + tail;
    assert(line[0] == '\'');
    assert(line.drop_first() =~= escaped(s) + seq!['\''] + tail);
    lemma_quoted_body(s, tail, Seq::empty(), words);
    assert(Seq::<char>::empty() + s =~= s);
}

/// Behind the words read already, a rendered line is read as the
/// arguments it was rendered from.
proof fn lemma_command_line_words(argv: Seq<Seq<char>>, words: Seq<Seq<char>>)
    ensures
        shell_words(command_line(argv), None, false, words) == Some(words + argv),
    decreases argv.len(),
{
    if argv.len() == 0 {
        assert(words + argv =~= words);
    } else if argv.len() == 1 {
        lemma_quoted_word(argv[0], Seq::empty(), words);
        assert(quoted(argv[0]) + Seq::<char>::empty() =~= quoted(argv[0]));
        assert(words.push(argv[0]) =~= words + argv);
    } else {
        let rest = command_line(argv.drop_first());
        let tail = seq![' '] + rest;
        lemma_quoted_word(argv[0], tail, words);
        assert(quoted(argv[0]) + tail =~= command_line(argv));
        assert(tail[0] == ' ');
        assert(tail.drop_first() =~= rest);
        lemma_command_line_words(argv.drop_first(), words.push(argv[0]));
        assert(words.push(argv[0]) + argv.drop_first() =~= words + argv);
    }
}

/// Quoting is faithful: a shell that reads the line rendered from `argv`
/// reads exactly the arguments `argv`, whatever characters they hold.
pub proof fn lemma_rendered_line_reads_back(argv: Seq<Seq<char>>)
    ensures
        shell_words(command_line(argv), None, false, Seq::empty()) == Some(argv),
{
    lemma_command_line_words(argv, Seq::empty());
    assert(Seq::<Seq<char>>::empty() + argv =~= argv);
}

} // verus!
