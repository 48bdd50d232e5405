//! Shell quoting for the remote commands, and the proof that a quoted name
//! survives POSIX word parsing as one literal argument.
//!
//! Every path fragment interpolated into a remote command goes through
//! [`shell_quote`]; unescaped interpolation would let a filename inject
//! commands into the session.

use vstd::prelude::*;

verus! {

/// The characters passed through without quoting: ASCII letters, digits,
/// and `- _ = / , . +`.
pub open spec fn safe_char(c: char) -> bool {
    (97 <= c as u32 && c as u32 <= 122) || (65 <= c as u32 && c as u32 <= 90) || (48 <= c as u32
        && c as u32 <= 57) || c == '-' || c == '_' || c == '=' || c == '/' || c == ',' || c == '.'
        || c == '+'
}

/// Whether every character of `s` is safe.
pub open spec fn all_safe(s: Seq<char>) -> bool {
    forall|i: int| 0 <= i < s.len() ==> safe_char(s[i])
}

/// How one character appears inside the quoted form: a quote or a bang
/// closes the quoting, emits a backslash escape, and reopens it; everything
/// else stands as itself.
pub open spec fn quote_piece(c: char) -> Seq<char> {
    if c == '\'' || c == '!' {
        seq!['\'', '\\', c, '\'']
    } else {
        seq![c]
    }
}

/// The quoted form's interior.
pub open spec fn quote_body(s: Seq<char>) -> Seq<char>
    decreases s.len(),
{
    if s.len() == 0 {
        seq![]
    } else {
        quote_piece(s[0]) + quote_body(s.drop_first())
    }
}

/// What shell quoting yields: nonempty, wholly safe text passes through;
/// anything else is wrapped in single quotes with its interior escaped.
pub open spec fn spec_shell_quote(s: Seq<char>) -> Seq<char> {
    if s.len() > 0 && all_safe(s) {
        s
    } else {
        seq!['\''] + quote_body(s) + seq!['\'']
    }
}

/// Relies on shell_escape::unix::escape: a nonempty text of whitelisted
/// characters is returned as given; any other text is wrapped in single
/// quotes, each embedded quote or bang escaped by closing the quotes around
/// a backslash escape.
#[verifier::external_body]
fn escape_for_shell(s: &str) -> (r: String)
    ensures
        r@ == spec_shell_quote(s@),
{
    shell_escape::unix::escape(std::borrow::Cow::from(s)).into_owned()
}

/// Quotes one path or name for interpolation into a remote shell command.
pub fn shell_quote(s: &str) -> (r: String)
    ensures
        r@ == spec_shell_quote(s@),
{
    escape_for_shell(s)
}

/// The characters a POSIX shell takes literally outside any quoting:
/// everything but whitespace and the shell's own metacharacters.
pub open spec fn plain_char(c: char) -> bool {
    !(c == ' ' || c == '\t' || c == '\n' || c == '\'' || c == '"' || c == '\\' || c == '$' || c
        == '`' || c == '!' || c == '(' || c == ')' || c == ';' || c == '&' || c == '|' || c == '<'
        || c == '>' || c == '*' || c == '?' || c == '[' || c == ']' || c == '#' || c == '~' || c
        == '{' || c == '}')
}

/// Prepends a literal character to a parsed word, if there is one.
pub open spec fn cons_word(c: char, r: Option<Seq<char>>) -> Option<Seq<char>> {
    match r {
        Option::Some(w) => Option::Some(seq![c] + w),
        Option::None => Option::None,
    }
}

/// What a POSIX shell makes of `s` as a single word: the literal argument
/// it denotes, or nothing if `s` is not one word built purely of literal
/// characters, single-quoted runs, and backslash escapes. `inq` says
/// whether the scan stands inside single quotes.
pub open spec fn shell_word(s: Seq<char>, inq: bool) -> Option<Seq<char>>
    decreases s.len(),
{
    if s.len() == 0 {
        if inq {
            Option::None
        } else {
            Option::Some(seq![])
        }
    } else if inq {
        if s[0] == '\'' {
            shell_word(s.drop_first(), false)
        } else {
            cons_word(s[0], shell_word(s.drop_first(), true))
        }
    } else if s[0] == '\'' {
        shell_word(s.drop_first(), true)
    } else if s[0] == '\\' {
        if s.len() >= 2 {
            cons_word(s[1], shell_word(s.skip(2), false))
        } else {
            Option::None
        }
    } else if plain_char(s[0]) {
        cons_word(s[0], shell_word(s.drop_first(), false))
    } else {
        Option::None
    }
}

/// Inside single quotes, the quoted interior followed by the closing quote
/// reads back as exactly the original text.
proof fn lemma_quoted_body(s: Seq<char>)
    ensures
        shell_word(quote_body(s) + seq!['\''], true) == Option::Some(s),
    decreases s.len(),
{
    let w = quote_body(s) + seq!['\''];
    if s.len() == 0 {
        assert(w =~= seq!['\'']);
        assert(w.drop_first() =~= Seq::<char>::empty());
        assert(shell_word(w, true) == shell_word(w.drop_first(), false));
        assert(shell_word(w.drop_first(), false) == Option::Some(Seq::<char>::empty()));
        assert(s =~= Seq::<char>::empty());
    } else {
        let c = s[0];
        lemma_quoted_body(s.drop_first());
        let rest = quote_body(s.drop_first()) + seq!['\''];
        if c == '\'' || c == '!' {
            assert(w =~= seq!['\'', '\\', c, '\''] + rest);
            let x = w.drop_first();
            assert(x =~= seq!['\\', c, '\''] + rest);
            assert(w[0] == '\'');
            assert(shell_word(w, true) == shell_word(x, false));
            assert(x[0] == '\\' && x.len() >= 2 && x[1] == c);
            assert(shell_word(x, false) == cons_word(c, shell_word(x.skip(2), false)));
            let y = x.skip(2);
            assert(y =~= seq!['\''] + rest);
            assert(y[0] == '\'');
            assert(y.drop_first() =~= rest);
            assert(shell_word(y, false) == shell_word(rest, true));
            assert(shell_word(rest, true) == Option::Some(s.drop_first()));
            assert(s =~= seq![c] + s.drop_first());
        } else {
            assert(w =~= seq![c] + rest);
            assert(w[0] == c && c != '\'');
            assert(w.drop_first() =~= rest);
            assert(shell_word(w, true) == cons_word(c, shell_word(rest, true)));
            assert(shell_word(rest, true) == Option::Some(s.drop_first()));
            assert(s =~= seq![c] + s.drop_first());
        }
    }
}

/// A wholly safe text is one word of plain characters.
proof fn lemma_safe_plain(s: Seq<char>)
    requires
        all_safe(s),
    ensures
        shell_word(s, false) == Option::Some(s),
    decreases s.len(),
{
    if s.len() == 0 {
        assert(s =~= Seq::<char>::empty());
    } else {
        assert(safe_char(s[0]));
        lemma_safe_plain(s.drop_first());
        assert(s =~= seq![s[0]] + s.drop_first());
    }
}

/// Shell-quoting law: for any text — embedded quotes, command
/// substitution, backticks, blanks included — the quoted form parses as a
/// single word whose literal value is exactly the original text, so a
/// quoted name can never inject into the command around it.
pub proof fn lemma_shell_quote_literal(s: Seq<char>)
    ensures
        shell_word(spec_shell_quote(s), false) == Option::Some(s),
{
    if s.len() > 0 && all_safe(s) {
        lemma_safe_plain(s);
    } else {
        let q = spec_shell_quote(s);
        assert(q =~= seq!['\''] + (quote_body(s) + seq!['\'']));
        assert(q[0] == '\'');
        assert(q.drop_first() =~= quote_body(s) + seq!['\'']);
        lemma_quoted_body(s);
    }
}

} // verus!
