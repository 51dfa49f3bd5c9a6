//! The tokenizer of assembly files: it makes labels and directives of a
//! stream of characters, skipping whitespace and comments.

use vstd::prelude::*;

verus! {

/// `String::push` appends the character `ch` to the end of the string.
pub assume_specification[ String::push ](s: &mut String, ch: char)
    ensures
        final(s)@ == old(s)@.push(ch),
;

/// A single input token.
#[derive(Debug)]
pub enum Input {
    /// A directive or instruction with its comma-delimited arguments.
    Directive(String, Vec<String>),
    /// A label, without its colon.
    Label(String),
}

/// A parser over the characters of an assembly file.
pub struct Parser {
    /// The characters of the file.
    input: Vec<char>,
    /// The number of characters taken from `input`.
    taken: usize,
    /// The lookahead buffer: characters given back, the last of them first to be read again.
    ungot: Vec<char>,
    /// The line number, starting at 1.
    line_nr: usize,
}

/// The token that a text starts with, as a parser reads it.
pub enum Token {
    /// The text ends before a token is complete.
    End,
    /// A label with the given name.
    Label(Seq<char>),
    /// A directive with the given name, before its arguments.
    Directive(Seq<char>),
}

/// Whether `c` is whitespace: a character with the Unicode property `White_Space`.
pub open spec fn is_whitespace(c: char) -> bool {
    let u = c as u32;
    ||| 0x09 <= u <= 0x0d
    ||| u == 0x20
    ||| u == 0x85
    ||| u == 0xa0
    ||| u == 0x1680
    ||| 0x2000 <= u <= 0x200a
    ||| u == 0x2028
    ||| u == 0x2029
    ||| u == 0x202f
    ||| u == 0x205f
    ||| u == 0x3000
}

/// Whether `c` can stand in a name: it is neither whitespace nor `:` nor `;`.
pub open spec fn is_name(c: char) -> bool {
    !is_whitespace(c) && c != ':' && c != ';'
}

/// The characters that are whitespace.
pub open spec fn whitespace_pred() -> spec_fn(char) -> bool {
    |c: char| is_whitespace(c)
}

/// The characters that can stand in a name.
pub open spec fn name_pred() -> spec_fn(char) -> bool {
    |c: char| is_name(c)
}

/// The characters that do not end a line.
pub open spec fn line_pred() -> spec_fn(char) -> bool {
    |c: char| c != '\n'
}

/// The length of the longest prefix of `s` all of whose characters satisfy `p`.
pub open spec fn run(s: Seq<char>, p: spec_fn(char) -> bool) -> int
    decreases s.len(),
{
    if s.len() == 0 || !p(s[0]) {
        0
    } else {
        1 + run(s.skip(1), p)
    }
}

/// `s` without its leading whitespace, or `None` where `s` is whitespace only.
pub open spec fn skip_whitespace_spec(s: Seq<char>) -> Option<Seq<char>> {
    let n = run(s, whitespace_pred());
    if n >= s.len() {
        None
    } else {
        Some(s.skip(n))
    }
}

/// Whether `s` starts with a comment, and `s` without it: a comment runs
/// from a `;` to the end of the line, the line break included.
pub open spec fn skip_comment_spec(s: Seq<char>) -> (bool, Seq<char>) {
    if s.len() == 0 || s[0] != ';' {
        (false, s)
    } else {
        let body = s.skip(1);
        let n = run(body, line_pred());
        if n >= body.len() {
            (true, Seq::<char>::empty())
        } else {
            (true, body.skip(n + 1))
        }
    }
}

/// `s` without its leading whitespace and comments, or `None` where nothing else is left.
pub open spec fn skip_blank_spec(s: Seq<char>) -> Option<Seq<char>>
    decreases s.len(),
{
    match skip_whitespace_spec(s) {
        None => None,
        Some(t) => {
            let (c, u) = skip_comment_spec(t);
            if c && u.len() < s.len() {
                skip_blank_spec(u)
            } else {
                Some(t)
            }
        },
    }
}

/// The token that `s` starts with, and what is left of `s` after it. A name
/// followed, after optional whitespace, by `:` is a label; one followed by
/// `;` is a directive without arguments, and the comment is left; after any
/// other character that character alone is read as a label.
pub open spec fn token_spec(s: Seq<char>) -> (Token, Seq<char>) {
    match skip_blank_spec(s) {
        None => (Token::End, Seq::<char>::empty()),
        Some(t) => {
            let n = run(t, name_pred());
            if n >= t.len() {
                (Token::End, Seq::<char>::empty())
            } else {
                match skip_whitespace_spec(t.skip(n)) {
                    None => (Token::End, Seq::<char>::empty()),
                    Some(w) => if w[0] == ':' {
                        (Token::Label(t.take(n)), w.skip(1))
                    } else if w[0] == ';' {
                        (Token::Directive(t.take(n)), w)
                    } else {
                        (Token::Label(seq![w[0]]), w.skip(1))
                    },
                }
            }
        },
    }
}

/// The token `t` is what the input `i` holds.
pub open spec fn shows(t: Token, i: Option<Input>) -> bool {
    match t {
        Token::End => i.is_none(),
        Token::Label(n) => i matches Some(Input::Label(s)) && s@ == n,
        Token::Directive(n) => i matches Some(Input::Directive(s, a)) && s@ == n && a@.len() == 0,
    }
}

/// A prefix of `k` characters that satisfy `p`, followed by the end of `s`
/// or by a character that does not, is the longest such prefix.
pub proof fn lemma_run(s: Seq<char>, p: spec_fn(char) -> bool, k: int)
    requires
        0 <= k <= s.len(),
        forall|i: int| 0 <= i < k ==> p(#[trigger] s[i]),
        k == s.len() || !p(s[k]),
    ensures
        run(s, p) == k,
    decreases k,
{
    if k > 0 {
        let t = s.skip(1);
        assert forall|i: int| 0 <= i < k - 1 implies p(#[trigger] t[i]) by {
            assert(t[i] == s[i + 1]);
        }
        lemma_run(t, p, k - 1);
    }
}

/// Whether `c` is whitespace.
pub fn whitespace(c: char) -> (r: bool)
    ensures
        r == is_whitespace(c),
{
    let u = c as u32;
    (0x09 <= u && u <= 0x0d) || u == 0x20 || u == 0x85 || u == 0xa0 || u == 0x1680 || (0x2000 <= u
        && u <= 0x200a) || u == 0x2028 || u == 0x2029 || u == 0x202f || u == 0x205f || u == 0x3000
}

fn name_char(c: char) -> (r: bool)
    ensures
        r == is_name(c),
{
    !whitespace(c) && c != ':' && c != ';'
}

impl Parser {
    /// The characters that are still to be read, in order.
    pub closed spec fn rest(&self) -> Seq<char> {
        self.ungot@.reverse() + self.input@.skip(self.taken as int)
    }

    /// The line count cannot overflow while the parser reads on.
    pub closed spec fn wf(&self) -> bool {
        &&& self.taken <= self.input.len()
        &&& self.line_nr + self.ungot.len() + (self.input.len() - self.taken) < usize::MAX
    }

    /// Creates a parser that reads the given characters.
    pub fn new(input: Vec<char>) -> (p: Parser)
        requires
            input.len() < usize::MAX - 1,
        ensures
            p.wf(),
            p.rest() == input@,
    {
        let p = Parser { input: input, taken: 0, ungot: Vec::new(), line_nr: 1 };
        assert(p.ungot@.reverse() =~= Seq::<char>::empty());
        assert(p.rest() =~= input@);
        p
    }

    /// Gives the character `c` back, to be read again next.
    fn ungetc(&mut self, c: char)
        requires
            old(self).taken <= old(self).input.len(),
            c == '\n' ==> old(self).line_nr > 0,
            old(self).line_nr + old(self).ungot.len() + (old(self).input.len() - old(self).taken)
                < usize::MAX - (if c == '\n' {
                0int
            } else {
                1int
            }),
        ensures
            final(self).wf(),
            final(self).rest() == seq![c] + old(self).rest(),
            final(self).line_nr == old(self).line_nr - (if c == '\n' {
                1int
            } else {
                0int
            }),
            final(self).ungot@.len() + final(self).input.len() - final(self).taken == old(self).ungot@.len() + old(self).input.len() - old(self).taken + 1,
    {
        if c == '\n' {
            self.line_nr = self.line_nr - 1;
        }
        self.ungot.push(c);
        proof {
            assert(self.ungot@.reverse() =~= seq![c] + old(self).ungot@.reverse());
            assert(self.rest() =~= seq![c] + old(self).rest());
        }
    }

    /// Reads the next character, from the lookahead buffer first.
    fn getc_raw(&mut self) -> (r: Option<char>)
        requires
            old(self).wf(),
        ensures
            final(self).wf(),
            final(self).line_nr == old(self).line_nr,
            old(self).rest().len() == 0 ==> r.is_none() && final(self).rest() == old(self).rest(),
            old(self).rest().len() > 0 ==> r == Some(old(self).rest()[0]) && final(self).rest()
                == old(self).rest().skip(1),
            final(self).taken <= final(self).input.len(),
            final(self).ungot@.len() + final(self).input.len() - final(self).taken == old(self).ungot@.len() + old(self).input.len() - old(self).taken - (if r.is_some() {
                1int
            } else {
                0int
            }),
    {
        match self.ungot.pop() {
            Some(c) => {
                proof {
                    assert(old(self).ungot@.reverse() =~= seq![c] + self.ungot@.reverse());
                    assert(self.rest() =~= old(self).rest().skip(1));
                }
                Some(c)
            },
            None => {
                proof {
                    assert(self.ungot@.reverse() =~= Seq::<char>::empty());
                }
                if self.taken < self.input.len() {
                    let c = self.input[self.taken];
                    self.taken = self.taken + 1;
                    proof {
                        assert(self.rest() =~= old(self).rest().skip(1));
                    }
                    Some(c)
                } else {
                    None
                }
            },
        }
    }

    /// Reads the next character and counts the line that it ends.
    fn getc(&mut self) -> (r: Option<char>)
        requires
            old(self).wf(),
        ensures
            final(self).wf(),
            old(self).rest().len() == 0 ==> r.is_none() && final(self).rest() == old(self).rest(),
            old(self).rest().len() > 0 ==> r == Some(old(self).rest()[0]) && final(self).rest()
                == old(self).rest().skip(1),
            final(self).line_nr == old(self).line_nr + (if r == Some('\n') {
                1int
            } else {
                0int
            }),
            final(self).taken <= final(self).input.len(),
            final(self).ungot@.len() + final(self).input.len() - final(self).taken == old(self).ungot@.len() + old(self).input.len() - old(self).taken - (if r.is_some() {
                1int
            } else {
                0int
            }),
    {
        let c = self.getc_raw();
        match c {
            Some('\n') => {
                self.line_nr = self.line_nr + 1;
            },
            _ => {},
        }
        c
    }

    /// Reads characters while `f` holds of them. Returns the characters read,
    /// or `None` where the input ends before a character of which `f` does
    /// not hold.
    fn getc_while<T: Fn(char) -> bool>(&mut self, f: T, Ghost(p): Ghost<spec_fn(char) -> bool>) -> (r:
        Option<String>)
        requires
            old(self).wf(),
            forall|c: char| call_requires(f, (c,)),
            forall|c: char, b: bool| call_ensures(f, (c,), b) ==> b == p(c),
        ensures
            final(self).wf(),
            run(old(self).rest(), p) >= old(self).rest().len() ==> r.is_none() && final(self).rest().len() == 0,
            run(old(self).rest(), p) < old(self).rest().len() ==> r.is_some() && r.unwrap()@ == old(self).rest().take(run(old(self).rest(), p)) && final(self).rest() == old(self).rest().skip(
                run(old(self).rest(), p),
            ),
    {
        let mut s = String::new();
        let ghost all = self.rest();
        let ghost mut k: int = 0;
        loop
            invariant
                self.wf(),
                0 <= k <= all.len(),
                all == old(self).rest(),
                self.rest() == all.skip(k),
                s@ == all.take(k),
                forall|i: int| 0 <= i < k ==> p(#[trigger] all[i]),
                forall|c: char| call_requires(f, (c,)),
                forall|c: char, b: bool| call_ensures(f, (c,), b) ==> b == p(c),
            decreases all.len() - k,
        {
            let ghost line0 = self.line_nr;
            match self.getc() {
                Some(c) => {
                    assert(c == all[k]);
                    if f(c) {
                        s.push(c);
                        proof {
                            assert(all.skip(k).skip(1) =~= all.skip(k + 1));
                            assert(all.take(k).push(c) =~= all.take(k + 1));
                            k = k + 1;
                        }
                    } else {
                        self.ungetc(c);
                        proof {
                            lemma_run(all, p, k);
                            assert(seq![c] + all.skip(k).skip(1) =~= all.skip(k));
                        }
                        return Some(s);
                    }
                },
                None => {
                    proof {
                        lemma_run(all, p, k);
                    }
                    return None;
                },
            }
        }
    }

    /// If the input is at a comment, skips over the comment.
    fn skip_comment(&mut self) -> (r: bool)
        requires
            old(self).wf(),
        ensures
            final(self).wf(),
            (r, final(self).rest()) == skip_comment_spec(old(self).rest()),
    {
        let ghost all = self.rest();
        match self.getc() {
            Some(';') => {},
            Some(x) => {
                self.ungetc(x);
                assert(seq![x] + all.skip(1) =~= all);
                return false;
            },
            None => {
                return false;
            },
        }
        let ghost body = all.skip(1);
        let ghost mut k: int = 0;
        let ghost p = line_pred();
        loop
            invariant
                self.wf(),
                0 <= k <= body.len(),
                all == old(self).rest(),
                all.len() > 0,
                all[0] == ';',
                body == all.skip(1),
                p == line_pred(),
                self.rest() == body.skip(k),
                forall|i: int| 0 <= i < k ==> p(#[trigger] body[i]),
            decreases body.len() - k,
        {
            match self.getc() {
                Some('\n') => {
                    proof {
                        lemma_run(body, p, k);
                        assert(body.skip(k).skip(1) =~= body.skip(k + 1));
                    }
                    return true;
                },
                Some(_) => {
                    proof {
                        assert(body.skip(k).skip(1) =~= body.skip(k + 1));
                        k = k + 1;
                    }
                },
                None => {
                    proof {
                        lemma_run(body, p, k);
                        assert(self.rest() =~= Seq::<char>::empty());
                    }
                    return true;
                },
            }
        }
    }

    /// Skips whitespace. Returns what was skipped, or `None` where the input
    /// ends with it.
    fn skip_whitespace(&mut self) -> (r: Option<String>)
        requires
            old(self).wf(),
        ensures
            final(self).wf(),
            skip_whitespace_spec(old(self).rest()) matches Some(t) ==> r.is_some() && final(self).rest() == t,
            skip_whitespace_spec(old(self).rest()).is_none() ==> r.is_none() && final(self).rest().len() == 0,
    {
        self.getc_while(whitespace, Ghost(whitespace_pred()))
    }

    /// Skips whitespace and comments until something else follows.
    fn skip_blank(&mut self) -> (r: bool)
        requires
            old(self).wf(),
        ensures
            final(self).wf(),
            skip_blank_spec(old(self).rest()) matches Some(t) ==> r && final(self).rest() == t,
            skip_blank_spec(old(self).rest()).is_none() ==> !r && final(self).rest().len() == 0,
    {
        loop
            invariant
                self.wf(),
                skip_blank_spec(self.rest()) == skip_blank_spec(old(self).rest()),
            decreases self.rest().len(),
        {
            let ghost s = self.rest();
            match self.skip_whitespace() {
                None => {
                    return false;
                },
                Some(_) => {},
            }
            let ghost t = self.rest();
            if !self.skip_comment() {
                proof {
                    lemma_comment_shorter(t);
                    lemma_run_bounds(s, whitespace_pred());
                }
                return true;
            }
            proof {
                lemma_comment_shorter(t);
                lemma_run_bounds(s, whitespace_pred());
                assert(skip_blank_spec(s) == skip_blank_spec(self.rest()));
            }
        }
    }

    /// Reads the next token: `Ok` with the token, `Err(true)` where another
    /// attempt is needed, `Err(false)` at the end of the input.
    fn try_input(&mut self) -> (r: Result<Input, bool>)
        requires
            old(self).wf(),
        ensures
            final(self).wf(),
            final(self).rest() == token_spec(old(self).rest()).1,
            r matches Ok(i) ==> shows(token_spec(old(self).rest()).0, Some(i)),
            r matches Err(again) ==> !again && token_spec(old(self).rest()).0 is End,
    {
        if !self.skip_blank() {
            assert(self.rest() =~= Seq::<char>::empty());
            return Err(false);
        }
        let s = match self.getc_while(name_char, Ghost(name_pred())) {
            Some(s) => s,
            None => {
                assert(self.rest() =~= Seq::<char>::empty());
                return Err(false);
            },
        };
        let ghost u = self.rest();
        match self.skip_whitespace() {
            Some(_) => {},
            None => {
                assert(self.rest() =~= Seq::<char>::empty());
                return Err(false);
            },
        }
        let ghost w = self.rest();
        proof {
            lemma_run_bounds(u, whitespace_pred());
        }
        assert(w.len() > 0);
        match self.getc() {
            Some(':') => Ok(Input::Label(s)),
            Some(';') => {
                self.ungetc(';');
                assert(seq![';'] + w.skip(1) =~= w);
                Ok(Input::Directive(s, Vec::new()))
            },
            Some(x) => {
                let mut t = String::new();
                t.push(x);
                assert(t@ =~= seq![x]);
                Ok(Input::Label(t))
            },
            None => Err(false),
        }
    }

    /// Reads the next token, or `None` at the end of the input.
    pub fn next(&mut self) -> (r: Option<Input>)
        requires
            old(self).wf(),
        ensures
            final(self).wf(),
            final(self).rest() == token_spec(old(self).rest()).1,
            shows(token_spec(old(self).rest()).0, r),
    {
        match self.try_input() {
            Ok(x) => Some(x),
            Err(_) => None,
        }
    }
}

/// A run is no longer than its text.
pub proof fn lemma_run_bounds(s: Seq<char>, p: spec_fn(char) -> bool)
    ensures
        0 <= run(s, p) <= s.len(),
    decreases s.len(),
{
    if s.len() > 0 && p(s[0]) {
        lemma_run_bounds(s.skip(1), p);
    }
}

/// What is left after a comment is shorter than what the comment started.
pub proof fn lemma_comment_shorter(t: Seq<char>)
    ensures
        skip_comment_spec(t).0 ==> skip_comment_spec(t).1.len() < t.len(),
{
    if t.len() > 0 {
        lemma_run_bounds(t.skip(1), line_pred());
    }
}

} // verus!
