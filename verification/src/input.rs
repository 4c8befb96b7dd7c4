//! Input handling and Vim-like keybindings.
//!
//! A [`KeyHandler`] interprets raw key presses as navigation intents. It is a
//! modal state machine: in `Normal` mode single keys navigate and digits
//! accumulate a page-jump prefix; in `Command` mode (entered with `:`) keys
//! build a command line that is parsed on Enter.

use vstd::prelude::*;

verus! {

/// Vim-like navigation mode.
#[derive(Debug, Clone, Copy, PartialEq, Eq, Structural)]
pub enum NavigationMode {
    /// Normal mode - for navigation.
    Normal,
    /// Command mode - for entering commands with a `:` prefix.
    Command,
}

/// Navigation action that results from key input.
#[derive(Debug, Clone, Copy, PartialEq, Eq, Structural)]
pub enum NavigationAction {
    /// Move to next page.
    NextPage,
    /// Move to previous page.
    PrevPage,
    /// Jump to first page.
    FirstPage,
    /// Jump to last page.
    LastPage,
    /// Advance by the configured half-page amount.
    HalfPageDown,
    /// Retreat by the configured half-page amount.
    HalfPageUp,
    /// Jump to a specific 1-based page number.
    JumpToPage(usize),
    /// Enter command mode.
    EnterCommandMode,
    /// Exit the viewer.
    Quit,
    /// No action.
    NoAction,
}

/// A key press, reduced to the identifiers the state machine cares about.
/// Every other key the windowing layer can report maps to `Other`.
#[derive(Debug, Clone, Copy, PartialEq, Eq, Structural)]
pub enum KeyInput {
    /// A printable character.
    Character(char),
    ArrowDown,
    ArrowUp,
    Enter,
    Escape,
    Backspace,
    Other,
}

/// Whether `c` is an ASCII decimal digit.
pub open spec fn is_ascii_digit_char(c: char) -> bool {
    ('0' as int) <= (c as int) && (c as int) <= ('9' as int)
}

/// The number denoted by a sequence of ASCII digits, most significant first.
pub open spec fn digits_val(s: Seq<char>) -> int
    decreases s.len(),
{
    if s.len() == 0 {
        0
    } else {
        digits_val(s.drop_last()) * 10 + (s.last() as int - '0' as int)
    }
}

/// Whether every character of `s` is an ASCII decimal digit.
pub open spec fn all_ascii_digits(s: Seq<char>) -> bool {
    forall|i: int| 0 <= i < s.len() ==> is_ascii_digit_char(#[trigger] s[i])
}

/// The digits of a number written with an optional leading `+` sign.
pub open spec fn digits_after_sign(s: Seq<char>) -> Seq<char> {
    if s.len() > 0 && s[0] == '+' {
        s.subrange(1, s.len() as int)
    } else {
        s
    }
}

/// What parsing a non-negative page number from `s` yields: the denoted value
/// when `s` is an optional `+` sign followed by one or more ASCII digits and
/// the value fits in `usize`, and nothing otherwise.
pub open spec fn parse_page_number_spec(s: Seq<char>) -> Option<usize> {
    let t = digits_after_sign(s);
    if t.len() > 0 && all_ascii_digits(t) && digits_val(t) <= usize::MAX {
        Some(digits_val(t) as usize)
    } else {
        None
    }
}

/// The value of a single ASCII digit character, or nothing for any other character.
fn char_digit_value(c: char) -> (r: Option<usize>)
    ensures
        r is Some <==> is_ascii_digit_char(c),
        r matches Some(d) ==> d as int == c as int - '0' as int,
{
    match c {
        '0' => Some(0),
        '1' => Some(1),
        '2' => Some(2),
        '3' => Some(3),
        '4' => Some(4),
        '5' => Some(5),
        '6' => Some(6),
        '7' => Some(7),
        '8' => Some(8),
        '9' => Some(9),
        _ => None,
    }
}

proof fn lemma_digits_val_nonneg(s: Seq<char>)
    requires
        all_ascii_digits(s),
    ensures
        digits_val(s) >= 0,
    decreases s.len(),
{
    if s.len() > 0 {
        assert(all_ascii_digits(s.drop_last()));
        lemma_digits_val_nonneg(s.drop_last());
    }
}

/// Appending further digits never decreases the denoted value.
proof fn lemma_digits_val_prefix_le(s: Seq<char>, k: int)
    requires
        all_ascii_digits(s),
        0 <= k <= s.len(),
    ensures
        digits_val(s.subrange(0, k)) <= digits_val(s),
    decreases s.len() - k,
{
    if k == s.len() {
        assert(s.subrange(0, k) =~= s);
    } else {
        let a = s.subrange(0, k);
        let b = s.subrange(0, k + 1);
        assert(b.drop_last() =~= a);
        assert(all_ascii_digits(a));
        lemma_digits_val_nonneg(a);
        assert(digits_val(b) == digits_val(a) * 10 + (b.last() as int - '0' as int));
        assert(digits_val(a) <= digits_val(b)) by (nonlinear_arith)
            requires
                digits_val(a) >= 0,
                digits_val(b) == digits_val(a) * 10 + (b.last() as int - '0' as int),
                b.last() as int - '0' as int >= 0,
        ;
        lemma_digits_val_prefix_le(s, k + 1);
    }
}

/// Parse a non-negative integer, exactly where `parse_page_number_spec` does.
pub fn parse_page_number(chars: &Vec<char>) -> (r: Option<usize>)
    ensures
        r == parse_page_number_spec(chars@),
{
    let n = chars.len();
    let start: usize = if n > 0 && chars[0] == '+' {
        1
    } else {
        0
    };
    let ghost t = digits_after_sign(chars@);
    proof {
        assert(t =~= chars@.subrange(start as int, n as int));
    }
    if start >= n {
        return None;
    }
    let mut acc: usize = 0;
    let mut i: usize = start;
    while i < n
        invariant
            start <= i <= n,
            n == chars@.len(),
            t == digits_after_sign(chars@),
            t == chars@.subrange(start as int, n as int),
            all_ascii_digits(chars@.subrange(start as int, i as int)),
            acc as int == digits_val(chars@.subrange(start as int, i as int)),
        decreases n - i,
    {
        let c = chars[i];
        let d = match char_digit_value(c) {
            Some(d) => d,
            None => {
                proof {
                    assert(t[i - start] == c);
                    assert(!all_ascii_digits(t));
                }
                return None;
            },
        };
        let ghost prefix = chars@.subrange(start as int, i as int);
        let ghost prefix1 = chars@.subrange(start as int, i + 1 as int);
        proof {
            assert(prefix1.drop_last() =~= prefix);
            assert(prefix1.last() == c);
            assert(digits_val(prefix1) == acc * 10 + d);
        }
        let overflowed: bool = match acc.checked_mul(10) {
            Some(m) => match m.checked_add(d) {
                Some(next) => {
                    acc = next;
                    false
                },
                None => true,
            },
            None => {
                proof {
                    lemma_digits_val_nonneg(prefix);
                    assert(acc * 10 + d > usize::MAX) by (nonlinear_arith)
                        requires
                            acc * 10 > usize::MAX,
                            d >= 0,
                    ;
                }
                true
            },
        };
        if overflowed {
            proof {
                assert(digits_val(prefix1) > usize::MAX);
                if all_ascii_digits(t) {
                    assert(t.subrange(0, i + 1 - start as int) =~= prefix1);
                    lemma_digits_val_prefix_le(t, i + 1 - start as int);
                    assert(digits_val(t) > usize::MAX);
                }
            }
            return None;
        }
        i = i + 1;
    }
    proof {
        assert(chars@.subrange(start as int, i as int) =~= t);
    }
    Some(acc)
}

/// Whether `c` is whitespace that command parsing ignores at either end:
/// the Unicode `White_Space` characters, as `str::trim` removes them.
pub open spec fn is_blank_char(c: char) -> bool {
    ||| c == ' '
    ||| c == '\t'
    ||| c == '\n'
    ||| c == '\r'
    ||| c == '\u{000b}'
    ||| c == '\u{000c}'
    ||| c == '\u{0085}'
    ||| c == '\u{00a0}'
    ||| c == '\u{1680}'
    ||| c == '\u{2000}'
    ||| c == '\u{2001}'
    ||| c == '\u{2002}'
    ||| c == '\u{2003}'
    ||| c == '\u{2004}'
    ||| c == '\u{2005}'
    ||| c == '\u{2006}'
    ||| c == '\u{2007}'
    ||| c == '\u{2008}'
    ||| c == '\u{2009}'
    ||| c == '\u{200a}'
    ||| c == '\u{2028}'
    ||| c == '\u{2029}'
    ||| c == '\u{202f}'
    ||| c == '\u{205f}'
    ||| c == '\u{3000}'
}

/// Whether `c` is whitespace, exactly as `is_blank_char` says.
fn is_blank(c: char) -> (r: bool)
    ensures
        r == is_blank_char(c),
{
    match c {
        ' ' | '\t' | '\n' | '\r' | '\u{000b}' | '\u{000c}' | '\u{0085}' | '\u{00a0}'
        | '\u{1680}' | '\u{2000}' | '\u{2001}' | '\u{2002}' | '\u{2003}' | '\u{2004}'
        | '\u{2005}' | '\u{2006}' | '\u{2007}' | '\u{2008}' | '\u{2009}' | '\u{200a}'
        | '\u{2028}' | '\u{2029}' | '\u{202f}' | '\u{205f}' | '\u{3000}' => true,
        _ => false,
    }
}

/// `s` with leading blanks removed.
pub open spec fn trim_front_spec(s: Seq<char>) -> Seq<char>
    decreases s.len(),
{
    if s.len() > 0 && is_blank_char(s[0]) {
        trim_front_spec(s.subrange(1, s.len() as int))
    } else {
        s
    }
}

/// `s` with trailing blanks removed.
pub open spec fn trim_back_spec(s: Seq<char>) -> Seq<char>
    decreases s.len(),
{
    if s.len() > 0 && is_blank_char(s.last()) {
        trim_back_spec(s.drop_last())
    } else {
        s
    }
}

/// `s` with blanks removed from both ends.
pub open spec fn trim_spec(s: Seq<char>) -> Seq<char> {
    trim_back_spec(trim_front_spec(s))
}

/// Copy of `chars` with blanks removed from both ends.
fn trimmed(chars: &Vec<char>) -> (r: Vec<char>)
    ensures
        r@ == trim_spec(chars@),
{
    let n = chars.len();
    proof {
        assert(chars@.subrange(0, n as int) =~= chars@);
    }
    let mut lo: usize = 0;
    while lo < n && is_blank(chars[lo])
        invariant
            0 <= lo <= n,
            n == chars@.len(),
            trim_front_spec(chars@) == trim_front_spec(chars@.subrange(lo as int, n as int)),
        decreases n - lo,
    {
        proof {
            let cur = chars@.subrange(lo as int, n as int);
            assert(cur[0] == chars@[lo as int]);
            assert(cur.subrange(1, cur.len() as int) =~= chars@.subrange(
                lo + 1 as int,
                n as int,
            ));
        }
        lo = lo + 1;
    }
    proof {
        assert(trim_front_spec(chars@) == chars@.subrange(lo as int, n as int));
    }
    let mut hi: usize = n;
    while hi > lo && is_blank(chars[hi - 1])
        invariant
            lo <= hi <= n,
            n == chars@.len(),
            trim_front_spec(chars@) == chars@.subrange(lo as int, n as int),
            trim_back_spec(chars@.subrange(lo as int, n as int)) == trim_back_spec(
                chars@.subrange(lo as int, hi as int),
            ),
        decreases hi,
    {
        proof {
            let cur = chars@.subrange(lo as int, hi as int);
            assert(cur.last() == chars@[hi - 1]);
            assert(cur.drop_last() =~= chars@.subrange(lo as int, hi - 1));
        }
        hi = hi - 1;
    }
    let mut r: Vec<char> = Vec::new();
    let mut j: usize = lo;
    while j < hi
        invariant
            lo <= j <= hi <= n,
            n == chars@.len(),
            r@ == chars@.subrange(lo as int, j as int),
        decreases hi - j,
    {
        r.push(chars[j]);
        proof {
            assert(r@ =~= chars@.subrange(lo as int, j + 1 as int));
        }
        j = j + 1;
    }
    proof {
        assert(r@ == chars@.subrange(lo as int, hi as int));
    }
    r
}

/// What executing a command line yields: `q` or `quit` asks to quit, a
/// non-negative number asks to jump to that 1-based page, and anything else
/// is silently ignored.
pub open spec fn parse_command_spec(buf: Seq<char>) -> NavigationAction {
    let cmd = trim_spec(buf);
    if cmd == seq!['q'] || cmd == seq!['q', 'u', 'i', 't'] {
        NavigationAction::Quit
    } else {
        match parse_page_number_spec(cmd) {
            Some(n) => NavigationAction::JumpToPage(n),
            None => NavigationAction::NoAction,
        }
    }
}

/// One step of the state machine in `Normal` mode: the mode and buffer after
/// the key, and the intent it produces.
pub open spec fn normal_step(buf: Seq<char>, key: KeyInput) -> (NavigationMode, Seq<char>, NavigationAction) {
    match key {
        KeyInput::Character(c) => {
            if c == 'j' {
                (NavigationMode::Normal, buf, NavigationAction::NextPage)
            } else if c == 'k' {
                (NavigationMode::Normal, buf, NavigationAction::PrevPage)
            } else if c == 'g' {
                if buf == seq!['g'] {
                    (NavigationMode::Normal, Seq::<char>::empty(), NavigationAction::FirstPage)
                } else {
                    (NavigationMode::Normal, seq!['g'], NavigationAction::NoAction)
                }
            } else if c == 'G' {
                (NavigationMode::Normal, buf, NavigationAction::LastPage)
            } else if c == 'd' {
                (NavigationMode::Normal, buf, NavigationAction::HalfPageDown)
            } else if c == 'u' {
                (NavigationMode::Normal, buf, NavigationAction::HalfPageUp)
            } else if c == 'q' || c == 'Q' {
                (NavigationMode::Normal, buf, NavigationAction::Quit)
            } else if c == ':' {
                (NavigationMode::Command, Seq::<char>::empty(), NavigationAction::EnterCommandMode)
            } else if is_ascii_digit_char(c) {
                (NavigationMode::Normal, buf.push(c), NavigationAction::NoAction)
            } else {
                (NavigationMode::Normal, buf, NavigationAction::NoAction)
            }
        },
        KeyInput::ArrowDown => (NavigationMode::Normal, buf, NavigationAction::NextPage),
        KeyInput::ArrowUp => (NavigationMode::Normal, buf, NavigationAction::PrevPage),
        KeyInput::Enter => {
            if buf.len() > 0 {
                match parse_page_number_spec(buf) {
                    Some(n) => (
                        NavigationMode::Normal,
                        Seq::<char>::empty(),
                        NavigationAction::JumpToPage(n),
                    ),
                    None => (NavigationMode::Normal, Seq::<char>::empty(), NavigationAction::NoAction),
                }
            } else {
                (NavigationMode::Normal, buf, NavigationAction::NoAction)
            }
        },
        KeyInput::Escape => (NavigationMode::Normal, Seq::<char>::empty(), NavigationAction::NoAction),
        _ => (NavigationMode::Normal, buf, NavigationAction::NoAction),
    }
}

/// One step of the state machine in `Command` mode.
pub open spec fn command_step(buf: Seq<char>, key: KeyInput) -> (NavigationMode, Seq<char>, NavigationAction) {
    match key {
        KeyInput::Enter => (NavigationMode::Normal, Seq::<char>::empty(), parse_command_spec(buf)),
        KeyInput::Escape => (NavigationMode::Normal, Seq::<char>::empty(), NavigationAction::NoAction),
        KeyInput::Backspace => {
            let shorter = if buf.len() > 0 {
                buf.drop_last()
            } else {
                buf
            };
            if shorter.len() == 0 {
                (NavigationMode::Normal, shorter, NavigationAction::NoAction)
            } else {
                (NavigationMode::Command, shorter, NavigationAction::NoAction)
            }
        },
        KeyInput::Character(c) => (NavigationMode::Command, buf.push(c), NavigationAction::NoAction),
        _ => (NavigationMode::Command, buf, NavigationAction::NoAction),
    }
}

/// One step of the state machine, whatever the mode.
pub open spec fn key_step(mode: NavigationMode, buf: Seq<char>, key: KeyInput) -> (
    NavigationMode,
    Seq<char>,
    NavigationAction,
) {
    match mode {
        NavigationMode::Normal => normal_step(buf, key),
        NavigationMode::Command => command_step(buf, key),
    }
}

/// Key handler for Vim-like navigation: the modal state machine that turns
/// key presses into [`NavigationAction`]s.
pub struct KeyHandler {
    mode: NavigationMode,
    command_buffer: Vec<char>,
}

impl KeyHandler {
    /// The current mode, as contracts see it.
    pub closed spec fn mode_spec(&self) -> NavigationMode {
        self.mode
    }

    /// The pending buffer, as contracts see it.
    pub closed spec fn buffer_view(&self) -> Seq<char> {
        self.command_buffer@
    }

    /// A handler in `Normal` mode with an empty buffer.
    pub fn new() -> (r: Self)
        ensures
            r.mode_spec() == NavigationMode::Normal,
            r.buffer_view() == Seq::<char>::empty(),
    {
        Self { mode: NavigationMode::Normal, command_buffer: Vec::new() }
    }

    pub fn mode(&self) -> (m: NavigationMode)
        ensures
            m == self.mode_spec(),
    {
        self.mode
    }

    pub fn command_buffer(&self) -> (b: &Vec<char>)
        ensures
            b@ == self.buffer_view(),
    {
        &self.command_buffer
    }

    /// Process a key press and return the corresponding action.
    pub fn handle_key(&mut self, key: &KeyInput) -> (action: NavigationAction)
        ensures
            ({
                let (m, b, a) = key_step(old(self).mode_spec(), old(self).buffer_view(), *key);
                final(self).mode_spec() == m && final(self).buffer_view() == b && action == a
            }),
    {
        match self.mode {
            NavigationMode::Normal => self.handle_normal_mode(key),
            NavigationMode::Command => self.handle_command_mode(key),
        }
    }

    fn handle_normal_mode(&mut self, key: &KeyInput) -> (action: NavigationAction)
        requires
            old(self).mode_spec() == NavigationMode::Normal,
        ensures
            ({
                let (m, b, a) = normal_step(old(self).buffer_view(), *key);
                final(self).mode_spec() == m && final(self).buffer_view() == b && action == a
            }),
    {
        match *key {
            KeyInput::Character(c) => {
                if c == 'j' {
                    NavigationAction::NextPage
                } else if c == 'k' {
                    NavigationAction::PrevPage
                } else if c == 'g' {
                    let pending_g = self.command_buffer.len() == 1 && self.command_buffer[0] == 'g';
                    proof {
                        if pending_g {
                            assert(self.buffer_view() =~= seq!['g']);
                        }
                        if self.buffer_view() == seq!['g'] {
                            assert(self.buffer_view().len() == 1);
                            assert(self.buffer_view()[0] == 'g');
                        }
                    }
                    if pending_g {
                        self.command_buffer.clear();
                        NavigationAction::FirstPage
                    } else {
                        self.command_buffer.clear();
                        self.command_buffer.push('g');
                        proof {
                            assert(self.buffer_view() =~= seq!['g']);
                        }
                        NavigationAction::NoAction
                    }
                } else if c == 'G' {
                    NavigationAction::LastPage
                } else if c == 'd' {
                    NavigationAction::HalfPageDown
                } else if c == 'u' {
                    NavigationAction::HalfPageUp
                } else if c == 'q' || c == 'Q' {
                    NavigationAction::Quit
                } else if c == ':' {
                    self.mode = NavigationMode::Command;
                    self.command_buffer.clear();
                    NavigationAction::EnterCommandMode
                } else {
                    match char_digit_value(c) {
                        Some(_) => {
                            self.command_buffer.push(c);
                            NavigationAction::NoAction
                        },
                        None => NavigationAction::NoAction,
                    }
                }
            },
            KeyInput::ArrowDown => NavigationAction::NextPage,
            KeyInput::ArrowUp => NavigationAction::PrevPage,
            KeyInput::Enter => {
                if self.command_buffer.len() > 0 {
                    let parsed = parse_page_number(&self.command_buffer);
                    self.command_buffer.clear();
                    match parsed {
                        Some(n) => NavigationAction::JumpToPage(n),
                        None => NavigationAction::NoAction,
                    }
                } else {
                    NavigationAction::NoAction
                }
            },
            KeyInput::Escape => {
                self.command_buffer.clear();
                NavigationAction::NoAction
            },
            _ => NavigationAction::NoAction,
        }
    }

    fn handle_command_mode(&mut self, key: &KeyInput) -> (action: NavigationAction)
        requires
            old(self).mode_spec() == NavigationMode::Command,
        ensures
            ({
                let (m, b, a) = command_step(old(self).buffer_view(), *key);
                final(self).mode_spec() == m && final(self).buffer_view() == b && action == a
            }),
    {
        match *key {
            KeyInput::Enter => {
                let action = self.parse_command();
                self.mode = NavigationMode::Normal;
                self.command_buffer.clear();
                action
            },
            KeyInput::Escape => {
                self.mode = NavigationMode::Normal;
                self.command_buffer.clear();
                NavigationAction::NoAction
            },
            KeyInput::Backspace => {
                let _ = self.command_buffer.pop();
                if self.command_buffer.len() == 0 {
                    self.mode = NavigationMode::Normal;
                }
                NavigationAction::NoAction
            },
            KeyInput::Character(c) => {
                self.command_buffer.push(c);
                NavigationAction::NoAction
            },
            _ => NavigationAction::NoAction,
        }
    }

    /// Execute the buffer's content as a command.
    pub fn parse_command(&self) -> (action: NavigationAction)
        ensures
            action == parse_command_spec(self.buffer_view()),
    {
        let cmd = trimmed(&self.command_buffer);
        let is_q = cmd.len() == 1 && cmd[0] == 'q';
        let is_quit = cmd.len() == 4 && cmd[0] == 'q' && cmd[1] == 'u' && cmd[2] == 'i'
            && cmd[3] == 't';
        proof {
            if is_q {
                assert(cmd@ =~= seq!['q']);
            }
            if is_quit {
                assert(cmd@ =~= seq!['q', 'u', 'i', 't']);
            }
            if cmd@ == seq!['q'] {
                assert(cmd@.len() == 1 && cmd@[0] == 'q');
            }
            if cmd@ == seq!['q', 'u', 'i', 't'] {
                assert(cmd@.len() == 4 && cmd@[0] == 'q' && cmd@[1] == 'u' && cmd@[2] == 'i'
                    && cmd@[3] == 't');
            }
        }
        if is_q || is_quit {
            NavigationAction::Quit
        } else {
            match parse_page_number(&cmd) {
                Some(n) => NavigationAction::JumpToPage(n),
                None => NavigationAction::NoAction,
            }
        }
    }
}

impl Default for KeyHandler {
    /// A handler in `Normal` mode with an empty buffer.
    fn default() -> (r: Self)
        ensures
            r.mode_spec() == NavigationMode::Normal,
            r.buffer_view() == Seq::<char>::empty(),
    {
        Self::new()
    }
}

} // verus!
