//! The terminal front end's state and every decision it takes on a key
//! press or on a result coming back from a worker. The front end itself
//! draws this state, runs the actions it returns on worker threads, and
//! feeds their results back.

use vstd::prelude::*;

use crate::backend::{Disclosure, DocInput, Proof};
use crate::text::{
    chars_of, find_in, occurs_at, parse_i128, parse_i128_spec, parse_u64, parse_u64_spec, push_chars,
    push_str, string_from_chars, trim, trim_bounds,
};
use crate::util::{date_error_message, ymd_fits, ymd_seconds, ymd_to_unix};

verus! {

/// Number of role tabs (Buyer, Seller, Auditor).
pub const TAB_COUNT: usize = 3;

/// Number of document fields on the Seller tab.
pub const FIELD_COUNT: usize = 3;

/// The amount a Fund action pulls into the escrow until the buyer edits it.
pub const FUND_AMOUNT: u64 = 100_000;

/// How many log lines are kept.
pub const LOG_LINES: usize = 8;

/// Live on-chain view of the escrow.
#[derive(Debug)]
pub struct Status {
    pub released: bool,
    pub escrow_bal: String,
    pub seller_bal: String,
}

/// Results posted back from worker threads.
pub enum Msg {
    Proof(Result<Proof, String>),
    Tx { label: String, res: Result<String, String> },
    Status(Result<Status, String>),
    Audit(Result<Disclosure, String>),
}

/// A key press, as the front end reads it.
#[derive(Clone, Copy, Debug, PartialEq, Eq)]
pub enum Key {
    Tab,
    BackTab,
    Up,
    Down,
    Left,
    Right,
    Backspace,
    Enter,
    Esc,
    /// Ctrl+C.
    Interrupt,
    Char(char),
    Other,
}

/// The disclosure profile the auditor looks at.
#[derive(Clone, Copy, Debug, PartialEq, Eq)]
pub enum Profile {
    Tax,
    Regulator,
    Full,
}

/// The profile after `p`, going round Tax → Regulator → Full → Tax.
pub open spec fn next_profile(p: Profile) -> Profile {
    match p {
        Profile::Tax => Profile::Regulator,
        Profile::Regulator => Profile::Full,
        Profile::Full => Profile::Tax,
    }
}

/// The profile before `p`.
pub open spec fn prev_profile(p: Profile) -> Profile {
    match p {
        Profile::Tax => Profile::Full,
        Profile::Regulator => Profile::Tax,
        Profile::Full => Profile::Regulator,
    }
}

impl Profile {
    /// The profile's name as the Auditor tab shows it.
    pub fn name(&self) -> (s: &'static str)
        ensures
            s@ == (match *self {
                Profile::Tax => "tax"@,
                Profile::Regulator => "regulator"@,
                Profile::Full => "full"@,
            }),
    {
        proof {
            reveal_strlit("tax");
            reveal_strlit("regulator");
            reveal_strlit("full");
        }
        match self {
            Profile::Tax => "tax",
            Profile::Regulator => "regulator",
            Profile::Full => "full",
        }
    }
}

/// Work for a worker thread.
#[derive(Debug)]
pub enum Action {
    /// Read the escrow's released flag and the escrow's and seller's balances.
    RefreshStatus,
    /// Generate a proof for these documents.
    Prove(DocInput),
    /// Fund the escrow with this amount.
    Fund(u64),
    /// Refund the escrow's remainder to the buyer.
    Refund,
    /// Release the escrow with a proof.
    Release { seal: String, journal: String },
    /// Open the auditor's disclosure.
    Audit,
}

/// The front end's state.
pub struct AppState {
    pub tab: usize,
    pub fields: Vec<Vec<char>>,
    pub field_idx: usize,
    pub dev_mode: bool,
    pub fund_amount: Vec<char>,
    pub profile: Profile,
    pub show_help: bool,
    pub proof: Option<Proof>,
    pub disclosure: Option<Disclosure>,
    pub status: Option<Status>,
    pub busy: Option<String>,
    pub spin: usize,
    pub log: Vec<String>,
    pub should_quit: bool,
}

/// The log after appending a line, keeping only the last `LOG_LINES`.
pub open spec fn pushed(log: Seq<Seq<char>>, line: Seq<char>) -> Seq<Seq<char>> {
    let l = log.push(line);
    if l.len() > LOG_LINES {
        l.subrange(l.len() - LOG_LINES, l.len() as int)
    } else {
        l
    }
}

/// The characters of each string.
pub open spec fn strings_view(v: Seq<String>) -> Seq<Seq<char>> {
    v.map_values(|s: String| s@)
}

/// The characters of each field.
pub open spec fn fields_view(v: Seq<Vec<char>>) -> Seq<Seq<char>> {
    v.map_values(|f: Vec<char>| f@)
}

/// The documents typed on the Seller tab, or the message saying which is
/// not valid.
pub open spec fn parse_input_spec(fields: Seq<Seq<char>>) -> Result<(u64, u64, u64), Seq<char>> {
    match parse_u64_spec(trim(fields[0])) {
        None => Err("invoice amount must be a whole number"@),
        Some(amount) => match ymd_seconds(fields[1]) {
            Err(e) => Err(date_error_message(e)@),
            Ok(secs) => match parse_u64_spec(trim(fields[2])) {
                None => Err("buyer balance must be a whole number"@),
                Some(balance) => Ok((amount, secs as u64, balance)),
            },
        },
    }
}

/// The spinner frames.
pub open spec fn spinner_frame(i: int) -> char {
    if i == 0 {
        '\u{280b}'
    } else if i == 1 {
        '\u{2819}'
    } else if i == 2 {
        '\u{2839}'
    } else {
        '\u{2838}'
    }
}

/// The log line for a refused action while another one runs.
pub open spec fn busy_line(busy: Seq<char>) -> Seq<char> {
    "\u{23f3} busy ("@ + busy + ") \u{2014} wait for it to finish"@
}

/// The log line of a failure.
pub open spec fn failure_line(e: Seq<char>) -> Seq<char> {
    "\u{2717} "@ + e
}

impl AppState {
    /// The state's invariant.
    pub open spec fn wf(&self) -> bool {
        &&& self.tab < TAB_COUNT
        &&& self.field_idx < FIELD_COUNT
        &&& self.fields@.len() == FIELD_COUNT
        &&& self.log@.len() <= LOG_LINES
    }

    /// Whether the date typed on the Seller tab can be computed.
    pub open spec fn date_computable(&self) -> bool {
        self.fields@.len() == FIELD_COUNT && ymd_fits(self.fields@[1]@)
    }

    /// The initial state: the Buyer tab, the sample documents, the default
    /// fund amount, the full disclosure profile, and a greeting in the log.
    pub fn new() -> (s: Self)
        ensures
            s.wf(),
            s.tab == 0,
            fields_view(s.fields@) == seq!["95000"@, "2024-12-31"@, "150000"@],
            s.field_idx == 0,
            s.dev_mode,
            s.fund_amount@ == "100000"@,
            s.profile == Profile::Full,
            !s.show_help,
            s.proof is None,
            s.disclosure is None,
            s.status is None,
            s.busy is None,
            s.spin == 0,
            strings_view(s.log@) == seq!["Loaded LC terms + deployment. Press Tab to switch role."@],
            !s.should_quit,
    {
        let mut fields: Vec<Vec<char>> = Vec::new();
        fields.push(chars_of("95000"));
        fields.push(chars_of("2024-12-31"));
        fields.push(chars_of("150000"));
        let mut log: Vec<String> = Vec::new();
        log.push(String::from_str("Loaded LC terms + deployment. Press Tab to switch role."));
        let s = AppState {
            tab: 0,
            fields,
            field_idx: 0,
            dev_mode: true,
            fund_amount: chars_of("100000"),
            profile: Profile::Full,
            show_help: false,
            proof: None,
            disclosure: None,
            status: None,
            busy: None,
            spin: 0,
            log,
            should_quit: false,
        };
        assert(fields_view(s.fields@) =~= seq!["95000"@, "2024-12-31"@, "150000"@]);
        assert(strings_view(s.log@) =~= seq!["Loaded LC terms + deployment. Press Tab to switch role."@]);
        s
    }

    /// The text of field `i`.
    pub fn field_text(&self, i: usize) -> (t: String)
        requires
            i < self.fields@.len(),
        ensures
            t@ == self.fields@[i as int]@,
    {
        string_from_chars(self.fields[i].as_slice())
    }

    /// The fund amount as typed on the Buyer tab.
    pub fn fund_text(&self) -> (t: String)
        ensures
            t@ == self.fund_amount@,
    {
        string_from_chars(self.fund_amount.as_slice())
    }

    /// The current spinner frame.
    pub fn spinner(&self) -> (c: char)
        ensures
            c == spinner_frame(self.spin as int % 4),
    {
        let i = self.spin % 4;
        if i == 0 {
            '\u{280b}'
        } else if i == 1 {
            '\u{2819}'
        } else if i == 2 {
            '\u{2839}'
        } else {
            '\u{2838}'
        }
    }

    /// Append a line to the log, keeping only the last `LOG_LINES`.
    pub fn push(&mut self, line: String)
        requires
            old(self).log@.len() <= LOG_LINES,
        ensures
            strings_view(final(self).log@) == pushed(strings_view(old(self).log@), line@),
            final(self).log@.len() <= LOG_LINES,
            same_but_log_and_busy(*old(self), *final(self)),
            final(self).busy == old(self).busy,
    {
        let ghost before = strings_view(self.log@);
        self.log.push(line);
        if self.log.len() > LOG_LINES {
            let n = self.log.len();
            let mut kept: Vec<String> = Vec::new();
            let mut i = n - LOG_LINES;
            while i < n
                invariant
                    n == self.log@.len(),
                    n > LOG_LINES,
                    n - LOG_LINES <= i <= n,
                    kept@ == self.log@.subrange(n - LOG_LINES, i as int),
                decreases n - i,
            {
                let line_i = self.log[i].clone();
                kept.push(line_i);
                i += 1;
                assert(kept@ =~= self.log@.subrange(n - LOG_LINES, i as int));
            }
            proof {
                assert(strings_view(kept@) =~= pushed(before, line@));
            }
            self.log = kept;
        } else {
            assert(strings_view(self.log@) =~= pushed(before, line@));
        }
    }
}

/// What a key press does, given the help overlay, the tab and the focused
/// field.
#[derive(Clone, Copy, Debug, PartialEq, Eq)]
pub enum KeyEffect {
    Quit,
    OpenHelp,
    CloseHelp,
    NextTab,
    PrevTab,
    Fund,
    Refund,
    Refresh,
    TypeFund(char),
    EraseFund,
    Prove,
    Release,
    Audit,
    PrevProfile,
    NextProfile,
    FieldUp,
    FieldDown,
    Erase,
    ToggleDevMode,
    Type(char),
    Ignore,
}

/// The effect of a key press. While the help overlay is shown any key
/// closes it. Otherwise Esc and Ctrl+C quit, '?' opens the help and
/// Tab/BackTab switch role everywhere; the other keys act per role.
pub open spec fn key_effect(show_help: bool, tab: usize, field_idx: usize, key: Key) -> KeyEffect {
    if show_help {
        KeyEffect::CloseHelp
    } else {
        match key {
            Key::Esc => KeyEffect::Quit,
            Key::Interrupt => KeyEffect::Quit,
            Key::Char('?') => KeyEffect::OpenHelp,
            Key::Tab => KeyEffect::NextTab,
            Key::BackTab => KeyEffect::PrevTab,
            _ => if tab == 0 {
                match key {
                    Key::Backspace => KeyEffect::EraseFund,
                    Key::Char(c) => if c == 'f' {
                        KeyEffect::Fund
                    } else if c == 'x' {
                        KeyEffect::Refund
                    } else if c == 's' {
                        KeyEffect::Refresh
                    } else if c == 'q' {
                        KeyEffect::Quit
                    } else if '0' <= c && c <= '9' {
                        KeyEffect::TypeFund(c)
                    } else {
                        KeyEffect::Ignore
                    },
                    _ => KeyEffect::Ignore,
                }
            } else if tab == 1 {
                match key {
                    Key::Up => KeyEffect::FieldUp,
                    Key::Down => KeyEffect::FieldDown,
                    Key::Backspace => KeyEffect::Erase,
                    Key::Enter => KeyEffect::Prove,
                    Key::Char(c) => if c == 'p' {
                        KeyEffect::Prove
                    } else if c == 'd' {
                        KeyEffect::ToggleDevMode
                    } else if c == 'r' {
                        KeyEffect::Release
                    } else if c == 'q' {
                        KeyEffect::Quit
                    } else if ('0' <= c && c <= '9') || (c == '-' && field_idx == 1) {
                        KeyEffect::Type(c)
                    } else {
                        KeyEffect::Ignore
                    },
                    _ => KeyEffect::Ignore,
                }
            } else {
                match key {
                    Key::Left => KeyEffect::PrevProfile,
                    Key::Right => KeyEffect::NextProfile,
                    Key::Char(c) => if c == 'a' {
                        KeyEffect::Audit
                    } else if c == 'q' {
                        KeyEffect::Quit
                    } else {
                        KeyEffect::Ignore
                    },
                    _ => KeyEffect::Ignore,
                }
            },
        }
    }
}

/// Everything but the log and the busy label is the same.
pub open spec fn same_but_log_and_busy(a: AppState, b: AppState) -> bool {
    &&& a.tab == b.tab
    &&& a.fields == b.fields
    &&& a.field_idx == b.field_idx
    &&& a.dev_mode == b.dev_mode
    &&& a.fund_amount == b.fund_amount
    &&& a.profile == b.profile
    &&& a.show_help == b.show_help
    &&& a.proof == b.proof
    &&& a.disclosure == b.disclosure
    &&& a.status == b.status
    &&& a.spin == b.spin
    &&& a.should_quit == b.should_quit
}

/// Starting a worker labelled `label`: refused with a log line while
/// another one runs; otherwise the state is marked busy and the action
/// (one that `is_action` accepts) is returned.
pub open spec fn started(
    a: AppState,
    b: AppState,
    r: Option<Action>,
    label: Seq<char>,
    is_action: spec_fn(Action) -> bool,
) -> bool {
    &&& same_but_log_and_busy(a, b)
    &&& match a.busy {
        Some(busy) => {
            &&& r is None
            &&& b.busy == a.busy
            &&& strings_view(b.log@) == pushed(strings_view(a.log@), busy_line(busy@))
        },
        None => {
            &&& r matches Some(act) && is_action(act)
            &&& b.busy matches Some(l) && l@ == label
            &&& b.log == a.log
        },
    }
}

/// A log line was appended and nothing else changed.
pub open spec fn logged(a: AppState, b: AppState, line: Seq<char>) -> bool {
    &&& same_but_log_and_busy(a, b)
    &&& b.busy == a.busy
    &&& strings_view(b.log@) == pushed(strings_view(a.log@), line)
}

impl AppState {
    /// Start a worker for `action` unless one is running.
    fn start(&mut self, label: &str, action: Action) -> (r: Option<Action>)
        requires
            old(self).log@.len() <= LOG_LINES,
        ensures
            started(*old(self), *final(self), r, label@, |act: Action| act == action),
            final(self).log@.len() <= LOG_LINES,
    {
        match &self.busy {
            Some(b) => {
                let mut line: Vec<char> = Vec::new();
                push_str(&mut line, "\u{23f3} busy (");
                push_str(&mut line, b.as_str());
                push_str(&mut line, ") \u{2014} wait for it to finish");
                let l = string_from_chars(line.as_slice());
                self.push(l);
                None
            },
            None => {
                self.busy = Some(String::from_str(label));
                Some(action)
            },
        }
    }

    /// Log a failure.
    fn fail(&mut self, e: &str)
        requires
            old(self).log@.len() <= LOG_LINES,
        ensures
            logged(*old(self), *final(self), failure_line(e@)),
            final(self).log@.len() <= LOG_LINES,
    {
        let mut line: Vec<char> = Vec::new();
        push_str(&mut line, "\u{2717} ");
        push_str(&mut line, e);
        self.push(string_from_chars(line.as_slice()));
    }

    /// Ask a worker for the escrow's on-chain status.
    pub fn refresh_status(&mut self) -> (r: Option<Action>)
        requires
            old(self).log@.len() <= LOG_LINES,
        ensures
            started(*old(self), *final(self), r, "status"@, |act: Action| act is RefreshStatus),
            final(self).log@.len() <= LOG_LINES,
    {
        self.start("status", Action::RefreshStatus)
    }

    /// The documents typed on the Seller tab.
    pub fn parse_input(&self) -> (r: Result<DocInput, String>)
        requires
            self.date_computable(),
        ensures
            match parse_input_spec(fields_view(self.fields@)) {
                Ok((a, s, b)) => r matches Ok(i) && i.amount_usdc == a && i.ship_date_unix == s
                    && i.buyer_balance_usdc == b,
                Err(e) => r matches Err(m) && m@ == e,
            },
    {
        let ghost fv = fields_view(self.fields@);
        assert(fv[0] == self.fields@[0]@ && fv[1] == self.fields@[1]@ && fv[2] == self.fields@[2]@);
        let f0 = self.fields[0].as_slice();
        let (a0, a1) = trim_bounds(f0, 0, f0.len());
        assert(f0@.subrange(0, f0@.len() as int) =~= f0@);
        let amount = match parse_u64(f0, a0, a1) {
            Some(v) => v,
            None => {
                return Err(String::from_str("invoice amount must be a whole number"));
            },
        };
        let date = string_from_chars(self.fields[1].as_slice());
        let ship = match ymd_to_unix(date.as_str()) {
            Ok(v) => v,
            Err(e) => {
                return Err(String::from_str(e.message()));
            },
        };
        let f2 = self.fields[2].as_slice();
        let (b0, b1) = trim_bounds(f2, 0, f2.len());
        assert(f2@.subrange(0, f2@.len() as int) =~= f2@);
        let balance = match parse_u64(f2, b0, b1) {
            Some(v) => v,
            None => {
                return Err(String::from_str("buyer balance must be a whole number"));
            },
        };
        Ok(DocInput { amount_usdc: amount, ship_date_unix: ship, buyer_balance_usdc: balance })
    }

    /// Generate a proof for the typed documents.
    fn do_prove(&mut self) -> (r: Option<Action>)
        requires
            old(self).log@.len() <= LOG_LINES,
            old(self).date_computable(),
        ensures
            final(self).log@.len() <= LOG_LINES,
            match parse_input_spec(fields_view(old(self).fields@)) {
                Ok((a, s, b)) => started(
                    *old(self),
                    *final(self),
                    r,
                    "prove"@,
                    |act: Action|
                        act matches Action::Prove(i) && i.amount_usdc == a && i.ship_date_unix == s
                            && i.buyer_balance_usdc == b,
                ),
                Err(e) => r is None && logged(*old(self), *final(self), failure_line(e)),
            },
    {
        match self.parse_input() {
            Ok(input) => self.start("prove", Action::Prove(input)),
            Err(e) => {
                self.fail(e.as_str());
                None
            },
        }
    }

    /// Fund the escrow with the amount typed on the Buyer tab.
    fn do_fund(&mut self) -> (r: Option<Action>)
        requires
            old(self).log@.len() <= LOG_LINES,
        ensures
            final(self).log@.len() <= LOG_LINES,
            match parse_u64_spec(trim(old(self).fund_amount@)) {
                Some(a) => started(
                    *old(self),
                    *final(self),
                    r,
                    "fund"@,
                    |act: Action| act == Action::Fund(a),
                ),
                None => r is None && logged(
                    *old(self),
                    *final(self),
                    failure_line("fund amount must be a whole number"@),
                ),
            },
    {
        let f = self.fund_amount.as_slice();
        let (lo, hi) = trim_bounds(f, 0, f.len());
        assert(f@.subrange(0, f@.len() as int) =~= f@);
        match parse_u64(f, lo, hi) {
            Some(a) => self.start("fund", Action::Fund(a)),
            None => {
                proof {
                    reveal_strlit("fund amount must be a whole number");
                }
                self.fail("fund amount must be a whole number");
                None
            },
        }
    }

    /// Refund the escrow's remainder to the buyer.
    fn do_refund(&mut self) -> (r: Option<Action>)
        requires
            old(self).log@.len() <= LOG_LINES,
        ensures
            started(*old(self), *final(self), r, "refund"@, |act: Action| act is Refund),
            final(self).log@.len() <= LOG_LINES,
    {
        self.start("refund", Action::Refund)
    }

    /// Release the escrow with the last proof.
    fn do_release(&mut self) -> (r: Option<Action>)
        requires
            old(self).log@.len() <= LOG_LINES,
        ensures
            final(self).log@.len() <= LOG_LINES,
            match old(self).proof {
                None => r is None && logged(
                    *old(self),
                    *final(self),
                    "\u{2717} no proof yet \u{2014} generate one on the Seller tab"@,
                ),
                Some(p) => started(
                    *old(self),
                    *final(self),
                    r,
                    "release"@,
                    |act: Action|
                        act matches Action::Release { seal, journal } && seal@ == p.seal@
                            && journal@ == p.journal@,
                ),
            },
    {
        match &self.proof {
            None => {
                self.push(String::from_str("\u{2717} no proof yet \u{2014} generate one on the Seller tab"));
                None
            },
            Some(p) => {
                let seal = p.seal.clone();
                let journal = p.journal.clone();
                self.start("release", Action::Release { seal, journal })
            },
        }
    }

    /// Open the auditor's disclosure.
    fn do_audit(&mut self) -> (r: Option<Action>)
        requires
            old(self).log@.len() <= LOG_LINES,
        ensures
            started(*old(self), *final(self), r, "audit"@, |act: Action| act is Audit),
            final(self).log@.len() <= LOG_LINES,
    {
        self.start("audit", Action::Audit)
    }
}

/// A part of the state that a key press may change on its own.
pub enum Part {
    Tab,
    Fields,
    FieldIdx,
    DevMode,
    FundAmount,
    Profile,
    Help,
    Quit,
}

/// Only part `p` of the state may differ from `a`.
pub open spec fn only_changed(a: AppState, b: AppState, p: Part) -> bool {
    &&& b.log == a.log
    &&& b.busy == a.busy
    &&& b.proof == a.proof
    &&& b.disclosure == a.disclosure
    &&& b.status == a.status
    &&& b.spin == a.spin
    &&& (p !is Tab ==> b.tab == a.tab)
    &&& (p !is Fields ==> b.fields == a.fields)
    &&& (p !is FieldIdx ==> b.field_idx == a.field_idx)
    &&& (p !is DevMode ==> b.dev_mode == a.dev_mode)
    &&& (p !is FundAmount ==> b.fund_amount == a.fund_amount)
    &&& (p !is Profile ==> b.profile == a.profile)
    &&& (p !is Help ==> b.show_help == a.show_help)
    &&& (p !is Quit ==> b.should_quit == a.should_quit)
}

/// `f` without its last character, if it has one.
pub open spec fn erased(f: Seq<char>) -> Seq<char> {
    if f.len() > 0 {
        f.drop_last()
    } else {
        f
    }
}

/// What handling `key` in state `a` does: `b` is the state after, `r` the
/// work it starts.
pub open spec fn key_handled(a: AppState, b: AppState, key: Key, r: Option<Action>) -> bool {
    match key_effect(a.show_help, a.tab, a.field_idx, key) {
        KeyEffect::Quit => r is None && only_changed(a, b, Part::Quit) && b.should_quit,
        KeyEffect::OpenHelp => r is None && only_changed(a, b, Part::Help) && b.show_help,
        KeyEffect::CloseHelp => r is None && only_changed(a, b, Part::Help) && !b.show_help,
        KeyEffect::NextTab => r is None && only_changed(a, b, Part::Tab) && b.tab == (a.tab + 1)
            % TAB_COUNT as int,
        KeyEffect::PrevTab => r is None && only_changed(a, b, Part::Tab) && b.tab == (a.tab
            + TAB_COUNT - 1) % TAB_COUNT as int,
        KeyEffect::FieldUp => r is None && only_changed(a, b, Part::FieldIdx) && b.field_idx == (
        a.field_idx + FIELD_COUNT - 1) % FIELD_COUNT as int,
        KeyEffect::FieldDown => r is None && only_changed(a, b, Part::FieldIdx) && b.field_idx == (
        a.field_idx + 1) % FIELD_COUNT as int,
        KeyEffect::ToggleDevMode => r is None && only_changed(a, b, Part::DevMode) && b.dev_mode
            == !a.dev_mode,
        KeyEffect::Erase => r is None && only_changed(a, b, Part::Fields) && fields_view(b.fields@)
            == fields_view(a.fields@).update(
            a.field_idx as int,
            erased(a.fields@[a.field_idx as int]@),
        ),
        KeyEffect::Type(c) => r is None && only_changed(a, b, Part::Fields) && fields_view(
            b.fields@,
        ) == fields_view(a.fields@).update(
            a.field_idx as int,
            a.fields@[a.field_idx as int]@.push(c),
        ),
        KeyEffect::TypeFund(c) => r is None && only_changed(a, b, Part::FundAmount)
            && b.fund_amount@ == a.fund_amount@.push(c),
        KeyEffect::EraseFund => r is None && only_changed(a, b, Part::FundAmount) && b.fund_amount@
            == erased(a.fund_amount@),
        KeyEffect::PrevProfile => r is None && only_changed(a, b, Part::Profile) && b.profile
            == prev_profile(a.profile),
        KeyEffect::NextProfile => r is None && only_changed(a, b, Part::Profile) && b.profile
            == next_profile(a.profile),
        KeyEffect::Ignore => r is None && b == a,
        KeyEffect::Fund => match parse_u64_spec(trim(a.fund_amount@)) {
            Some(amount) => started(a, b, r, "fund"@, |act: Action| act == Action::Fund(amount)),
            None => r is None && logged(a, b, failure_line("fund amount must be a whole number"@)),
        },
        KeyEffect::Refund => started(a, b, r, "refund"@, |act: Action| act is Refund),
        KeyEffect::Refresh => started(a, b, r, "status"@, |act: Action| act is RefreshStatus),
        KeyEffect::Audit => started(a, b, r, "audit"@, |act: Action| act is Audit),
        KeyEffect::Prove => match parse_input_spec(fields_view(a.fields@)) {
            Ok((amt, s, bal)) => started(
                a,
                b,
                r,
                "prove"@,
                |act: Action|
                    act matches Action::Prove(i) && i.amount_usdc == amt && i.ship_date_unix == s
                        && i.buyer_balance_usdc == bal,
            ),
            Err(e) => r is None && logged(a, b, failure_line(e)),
        },
        KeyEffect::Release => match a.proof {
            None => r is None && logged(
                a,
                b,
                "\u{2717} no proof yet \u{2014} generate one on the Seller tab"@,
            ),
            Some(p) => started(
                a,
                b,
                r,
                "release"@,
                |act: Action|
                    act matches Action::Release { seal, journal } && seal@ == p.seal@ && journal@
                        == p.journal@,
            ),
        },
    }
}

impl AppState {
    /// Whether handling `key` reads the typed ship date (only proving does).
    pub fn key_reads_date(&self, key: Key) -> (b: bool)
        ensures
            b == (key_effect(self.show_help, self.tab, self.field_idx, key) is Prove),
    {
        if self.show_help || self.tab != 1 {
            return false;
        }
        match key {
            Key::Enter => true,
            Key::Char(c) => c == 'p',
            _ => false,
        }
    }

    /// Handle a key press; returns the work to start, if any.
    pub fn on_key(&mut self, key: Key) -> (r: Option<Action>)
        requires
            old(self).wf(),
            key_effect(old(self).show_help, old(self).tab, old(self).field_idx, key) is Prove
                ==> old(self).date_computable(),
        ensures
            final(self).wf(),
            key_handled(*old(self), *final(self), key, r),
    {
        if self.show_help {
            self.show_help = false;
            return None;
        }
        match key {
            Key::Esc | Key::Interrupt => {
                self.should_quit = true;
                return None;
            },
            Key::Char('?') => {
                self.show_help = true;
                return None;
            },
            Key::Tab => {
                self.tab = (self.tab + 1) % TAB_COUNT;
                return None;
            },
            Key::BackTab => {
                self.tab = (self.tab + TAB_COUNT - 1) % TAB_COUNT;
                return None;
            },
            _ => {},
        }
        if self.tab == 0 {
            self.key_buyer(key)
        } else if self.tab == 1 {
            self.key_seller(key)
        } else {
            self.key_auditor(key)
        }
    }

    /// Keys of the Buyer tab.
    fn key_buyer(&mut self, key: Key) -> (r: Option<Action>)
        requires
            old(self).wf(),
            !old(self).show_help,
            old(self).tab == 0,
            !(key is Esc || key is Interrupt || key is Tab || key is BackTab || key == Key::Char(
                '?',
            )),
        ensures
            final(self).wf(),
            key_handled(*old(self), *final(self), key, r),
    {
        match key {
            Key::Backspace => {
                let ghost before = self.fund_amount@;
                self.fund_amount.pop();
                assert(self.fund_amount@ =~= erased(before));
                None
            },
            Key::Char(c) => {
                if c == 'f' {
                    self.do_fund()
                } else if c == 'x' {
                    self.do_refund()
                } else if c == 's' {
                    self.refresh_status()
                } else if c == 'q' {
                    self.should_quit = true;
                    None
                } else if '0' <= c && c <= '9' {
                    self.fund_amount.push(c);
                    None
                } else {
                    None
                }
            },
            _ => None,
        }
    }

    /// Keys of the Auditor tab.
    fn key_auditor(&mut self, key: Key) -> (r: Option<Action>)
        requires
            old(self).wf(),
            !old(self).show_help,
            old(self).tab == 2,
            !(key is Esc || key is Interrupt || key is Tab || key is BackTab || key == Key::Char(
                '?',
            )),
        ensures
            final(self).wf(),
            key_handled(*old(self), *final(self), key, r),
    {
        match key {
            Key::Left => {
                self.profile = match self.profile {
                    Profile::Tax => Profile::Full,
                    Profile::Regulator => Profile::Tax,
                    Profile::Full => Profile::Regulator,
                };
                None
            },
            Key::Right => {
                self.profile = match self.profile {
                    Profile::Tax => Profile::Regulator,
                    Profile::Regulator => Profile::Full,
                    Profile::Full => Profile::Tax,
                };
                None
            },
            Key::Char(c) => {
                if c == 'a' {
                    self.do_audit()
                } else if c == 'q' {
                    self.should_quit = true;
                    None
                } else {
                    None
                }
            },
            _ => None,
        }
    }

    /// Keys of the Seller tab.
    fn key_seller(&mut self, key: Key) -> (r: Option<Action>)
        requires
            old(self).wf(),
            !old(self).show_help,
            old(self).tab == 1,
            !(key is Esc || key is Interrupt || key is Tab || key is BackTab || key == Key::Char(
                '?',
            )),
            key_effect(old(self).show_help, old(self).tab, old(self).field_idx, key) is Prove
                ==> old(self).date_computable(),
        ensures
            final(self).wf(),
            key_handled(*old(self), *final(self), key, r),
    {
        match key {
            Key::Up => {
                self.field_idx = (self.field_idx + FIELD_COUNT - 1) % FIELD_COUNT;
                None
            },
            Key::Down => {
                self.field_idx = (self.field_idx + 1) % FIELD_COUNT;
                None
            },
            Key::Backspace => {
                let idx = self.field_idx;
                let ghost before = fields_view(self.fields@);
                let mut f = self.fields[idx].clone();
                f.pop();
                self.fields.set(idx, f);
                assert(fields_view(self.fields@) =~= before.update(
                    idx as int,
                    erased(before[idx as int]),
                ));
                None
            },
            Key::Enter => self.do_prove(),
            Key::Char(c) => {
                if c == 'p' {
                    self.do_prove()
                } else if c == 'd' {
                    self.dev_mode = !self.dev_mode;
                    None
                } else if c == 'r' {
                    self.do_release()
                } else if c == 'q' {
                    self.should_quit = true;
                    None
                } else if ('0' <= c && c <= '9') || (c == '-' && self.field_idx == 1) {
                    let idx = self.field_idx;
                    let ghost before = fields_view(self.fields@);
                    let mut f = self.fields[idx].clone();
                    f.push(c);
                    self.fields.set(idx, f);
                    assert(fields_view(self.fields@) =~= before.update(
                        idx as int,
                        before[idx as int].push(c),
                    ));
                    None
                } else {
                    None
                }
            },
            _ => None,
        }
    }
}

/// The first 12 characters of `s`.
pub open spec fn short_spec(s: Seq<char>) -> Seq<char> {
    if s.len() <= 12 {
        s
    } else {
        s.subrange(0, 12)
    }
}

/// The first 12 characters of `s`.
pub fn short(s: &str) -> (r: String)
    ensures
        r@ == short_spec(s@),
{
    let cs = chars_of(s);
    let n = if cs.len() <= 12 {
        cs.len()
    } else {
        12
    };
    assert(cs@.subrange(0, cs@.len() as int) =~= cs@);
    string_from_chars(vstd::slice::slice_subrange(cs.as_slice(), 0, n))
}

/// Only the log, the busy label and the named part of the state changed.
pub open spec fn same_but_results(a: AppState, b: AppState) -> bool {
    &&& a.tab == b.tab
    &&& a.fields == b.fields
    &&& a.field_idx == b.field_idx
    &&& a.dev_mode == b.dev_mode
    &&& a.fund_amount == b.fund_amount
    &&& a.profile == b.profile
    &&& a.show_help == b.show_help
    &&& a.spin == b.spin
    &&& a.should_quit == b.should_quit
}

impl AppState {
    /// Advance the spinner.
    pub fn tick(&mut self)
        ensures
            final(self).spin == (if old(self).spin == usize::MAX {
                0
            } else {
                old(self).spin + 1
            }),
            final(self).tab == old(self).tab,
            final(self).fields == old(self).fields,
            final(self).field_idx == old(self).field_idx,
            final(self).dev_mode == old(self).dev_mode,
            final(self).fund_amount == old(self).fund_amount,
            final(self).profile == old(self).profile,
            final(self).show_help == old(self).show_help,
            final(self).proof == old(self).proof,
            final(self).disclosure == old(self).disclosure,
            final(self).status == old(self).status,
            final(self).busy == old(self).busy,
            final(self).log == old(self).log,
            final(self).should_quit == old(self).should_quit,
    {
        self.spin = if self.spin == usize::MAX {
            0
        } else {
            self.spin + 1
        };
    }

    /// Take in a worker's result: the worker is done, the result is
    /// recorded and logged, and a finished transaction refreshes the status.
    pub fn on_message(&mut self, msg: Msg) -> (r: Option<Action>)
        requires
            old(self).wf(),
        ensures
            final(self).wf(),
            same_but_results(*old(self), *final(self)),
            match msg {
                Msg::Proof(Ok(p)) => r is None && final(self).busy is None && final(self).proof
                    == Some(p) && final(self).disclosure == old(self).disclosure
                    && final(self).status == old(self).status && strings_view(final(self).log@)
                    == pushed(
                    strings_view(old(self).log@),
                    "\u{2713} proof (real) \u{2014} seal "@ + short_spec(p.seal@) + "\u{2026}"@,
                ),
                Msg::Proof(Err(e)) => r is None && final(self).busy is None && final(self).proof
                    == old(self).proof && final(self).disclosure == old(self).disclosure
                    && final(self).status == old(self).status && strings_view(final(self).log@)
                    == pushed(strings_view(old(self).log@), failure_line(e@)),
                Msg::Tx { label, res: Ok(_) } => {
                    &&& final(self).proof == old(self).proof
                    &&& final(self).disclosure == old(self).disclosure
                    &&& final(self).status == old(self).status
                    &&& r matches Some(act) && act is RefreshStatus
                    &&& final(self).busy matches Some(b) && b@ == "status"@
                    &&& strings_view(final(self).log@) == pushed(
                        strings_view(old(self).log@),
                        "\u{2713} "@ + label@ + " submitted on-chain"@,
                    )
                },
                Msg::Tx { label, res: Err(e) } => r is None && final(self).busy is None
                    && final(self).proof == old(self).proof && final(self).disclosure == old(
                    self,
                ).disclosure && final(self).status == old(self).status && strings_view(
                    final(self).log@,
                ) == pushed(strings_view(old(self).log@), "\u{2717} "@ + label@ + ": "@ + e@),
                Msg::Status(Ok(st)) => r is None && final(self).busy is None && final(self).status
                    == Some(st) && final(self).proof == old(self).proof && final(self).disclosure
                    == old(self).disclosure && final(self).log == old(self).log,
                Msg::Status(Err(e)) => r is None && final(self).busy is None && final(self).proof
                    == old(self).proof && final(self).disclosure == old(self).disclosure
                    && final(self).status == old(self).status && strings_view(final(self).log@)
                    == pushed(strings_view(old(self).log@), "\u{2717} status: "@ + e@),
                Msg::Audit(Ok(d)) => r is None && final(self).busy is None && final(self).disclosure
                    == Some(d) && final(self).proof == old(self).proof && final(self).status
                    == old(self).status && strings_view(final(self).log@) == pushed(
                    strings_view(old(self).log@),
                    "\u{2713} disclosure decrypted by auditor"@,
                ),
                Msg::Audit(Err(e)) => r is None && final(self).busy is None && final(self).proof
                    == old(self).proof && final(self).disclosure == old(self).disclosure
                    && final(self).status == old(self).status && strings_view(final(self).log@)
                    == pushed(strings_view(old(self).log@), "\u{2717} audit: "@ + e@),
            },
    {
        self.busy = None;
        match msg {
            Msg::Proof(Ok(p)) => {
                let mut line: Vec<char> = Vec::new();
                push_str(&mut line, "\u{2713} proof (real) \u{2014} seal ");
                let sh = short(p.seal.as_str());
                push_str(&mut line, sh.as_str());
                push_str(&mut line, "\u{2026}");
                self.push(string_from_chars(line.as_slice()));
                self.proof = Some(p);
                None
            },
            Msg::Proof(Err(e)) => {
                let mut line: Vec<char> = Vec::new();
                push_str(&mut line, "\u{2717} ");
                push_str(&mut line, e.as_str());
                self.push(string_from_chars(line.as_slice()));
                None
            },
            Msg::Tx { label, res: Ok(_) } => {
                let mut line: Vec<char> = Vec::new();
                push_str(&mut line, "\u{2713} ");
                push_str(&mut line, label.as_str());
                push_str(&mut line, " submitted on-chain");
                self.push(string_from_chars(line.as_slice()));
                self.refresh_status()
            },
            Msg::Tx { label, res: Err(e) } => {
                let mut line: Vec<char> = Vec::new();
                push_str(&mut line, "\u{2717} ");
                push_str(&mut line, label.as_str());
                push_str(&mut line, ": ");
                push_str(&mut line, e.as_str());
                self.push(string_from_chars(line.as_slice()));
                None
            },
            Msg::Status(Ok(st)) => {
                self.status = Some(st);
                None
            },
            Msg::Status(Err(e)) => {
                let mut line: Vec<char> = Vec::new();
                push_str(&mut line, "\u{2717} status: ");
                push_str(&mut line, e.as_str());
                self.push(string_from_chars(line.as_slice()));
                None
            },
            Msg::Audit(Ok(d)) => {
                self.push(String::from_str("\u{2713} disclosure decrypted by auditor"));
                self.disclosure = Some(d);
                None
            },
            Msg::Audit(Err(e)) => {
                let mut line: Vec<char> = Vec::new();
                push_str(&mut line, "\u{2717} audit: ");
                push_str(&mut line, e.as_str());
                self.push(string_from_chars(line.as_slice()));
                None
            },
        }
    }
}

// --- what the screen shows ---------------------------------------------------

/// `s` cut to `n` characters, marked with a '…' when cut.
pub open spec fn trunc_spec(s: Seq<char>, n: nat) -> Seq<char> {
    if s.len() <= n {
        s
    } else {
        s.subrange(0, n as int) + "\u{2026}"@
    }
}

/// `s` cut to `n` characters, marked with a '…' when cut.
pub fn trunc_n(s: &str, n: usize) -> (r: String)
    ensures
        r@ == trunc_spec(s@, n as nat),
{
    let cs = chars_of(s);
    if cs.len() <= n {
        return string_from_chars(cs.as_slice());
    }
    let mut out: Vec<char> = Vec::new();
    push_chars(&mut out, vstd::slice::slice_subrange(cs.as_slice(), 0, n));
    push_str(&mut out, "\u{2026}");
    string_from_chars(out.as_slice())
}

/// `s` cut to 24 characters, marked with a '…' when cut.
pub fn trunc(s: &str) -> (r: String)
    ensures
        r@ == trunc_spec(s@, 24),
{
    trunc_n(s, 24)
}

/// The value of a printed balance; unreadable balances count as zero.
pub open spec fn balance_value(s: Seq<char>) -> i128 {
    match parse_i128_spec(trim(s)) {
        Some(v) => v,
        None => 0,
    }
}

/// The printed balance's value.
pub fn balance_value_of(s: &str) -> (v: i128)
    ensures
        v == balance_value(s@),
{
    let cs = chars_of(s);
    let (lo, hi) = trim_bounds(cs.as_slice(), 0, cs.len());
    assert(cs@.subrange(0, cs@.len() as int) =~= cs@);
    match parse_i128(cs.as_slice(), lo, hi) {
        Some(v) => v,
        None => 0,
    }
}

/// Which of the four settlement steps the on-chain state shows as done:
/// ① Fund → ② Prove → ③ Release → ④ Refund.
#[derive(Clone, Copy, Debug, PartialEq, Eq)]
pub struct FlowSteps {
    pub funded: bool,
    pub proved: bool,
    pub released: bool,
    pub refunded: bool,
}

/// What one rule of the compliance check says of the typed documents:
/// `None` while a value it needs does not parse.
#[derive(Clone, Copy, Debug, PartialEq, Eq)]
pub struct Checklist {
    pub amount_within_limit: Option<bool>,
    pub shipped_by_deadline: Option<bool>,
    pub balance_covers_limit: Option<bool>,
}

/// The rule checklist of the typed documents against a credit limit and a
/// deadline, as the compliance check applies the rules: the amount is at most
/// the limit, the shipment is by the deadline, and the buyer's balance covers
/// the credit limit.
pub open spec fn checklist_spec(fields: Seq<Seq<char>>, limit: u64, deadline: u64) -> Checklist {
    let amount = parse_u64_spec(trim(fields[0]));
    let ship = ymd_seconds(fields[1]);
    let balance = parse_u64_spec(trim(fields[2]));
    Checklist {
        amount_within_limit: match amount {
            Some(a) => Some(a <= limit),
            None => None,
        },
        shipped_by_deadline: match ship {
            Ok(secs) => Some(secs as u64 <= deadline),
            Err(_) => None,
        },
        balance_covers_limit: match balance {
            Some(b) => Some(b >= limit),
            None => None,
        },
    }
}

/// Whether a seal starts with the selector the on-chain verifier accepts.
pub open spec fn seal_selector_ok(seal: Seq<char>) -> bool {
    occurs_at(seal, "73c457ba"@, 0)
}

impl AppState {
    /// The settlement steps the current state shows as done.
    pub fn flow_steps(&self) -> (f: FlowSteps)
        ensures
            f.funded == (self.status matches Some(st) && balance_value(st.escrow_bal@) > 0),
            f.proved == self.proof is Some,
            f.released == (self.status matches Some(st) && st.released),
            f.refunded == (self.status matches Some(st) && st.released && balance_value(
                st.escrow_bal@,
            ) == 0),
    {
        match &self.status {
            Some(st) => {
                let v = balance_value_of(st.escrow_bal.as_str());
                FlowSteps {
                    funded: v > 0,
                    proved: self.proof.is_some(),
                    released: st.released,
                    refunded: st.released && v == 0,
                }
            },
            None => FlowSteps {
                funded: false,
                proved: self.proof.is_some(),
                released: false,
                refunded: false,
            },
        }
    }

    /// The live rule checklist of the Seller tab.
    pub fn seller_checklist(&self, limit: u64, deadline: u64) -> (c: Checklist)
        requires
            self.date_computable(),
        ensures
            c == checklist_spec(fields_view(self.fields@), limit, deadline),
    {
        let ghost fv = fields_view(self.fields@);
        assert(fv[0] == self.fields@[0]@ && fv[1] == self.fields@[1]@ && fv[2] == self.fields@[2]@);
        let f0 = self.fields[0].as_slice();
        let (a0, a1) = trim_bounds(f0, 0, f0.len());
        assert(f0@.subrange(0, f0@.len() as int) =~= f0@);
        let amount = parse_u64(f0, a0, a1);
        let date = string_from_chars(self.fields[1].as_slice());
        let ship = ymd_to_unix(date.as_str());
        let f2 = self.fields[2].as_slice();
        let (b0, b1) = trim_bounds(f2, 0, f2.len());
        assert(f2@.subrange(0, f2@.len() as int) =~= f2@);
        let balance = parse_u64(f2, b0, b1);
        Checklist {
            amount_within_limit: match amount {
                Some(a) => Some(a <= limit),
                None => None,
            },
            shipped_by_deadline: match ship {
                Ok(s) => Some(s <= deadline),
                Err(_) => None,
            },
            balance_covers_limit: match balance {
                Some(b) => Some(b >= limit),
                None => None,
            },
        }
    }
}

/// Whether a seal starts with the selector the on-chain verifier accepts.
pub fn has_verifier_selector(seal: &str) -> (b: bool)
    ensures
        b == seal_selector_ok(seal@),
{
    let cs = chars_of(seal);
    let sel = chars_of("73c457ba");
    if cs.len() < sel.len() {
        return false;
    }
    match find_in(cs.as_slice(), 0, sel.len(), sel.as_slice()) {
        Some(_) => {
            assert(cs@.subrange(0, sel@.len() as int).subrange(0, sel@.len() as int) =~= cs@.subrange(0, sel@.len() as int));
            true
        },
        None => {
            assert(!occurs_at(cs@.subrange(0, sel@.len() as int), sel@, 0));
            assert(cs@.subrange(0, sel@.len() as int).subrange(0, sel@.len() as int) =~= cs@.subrange(0, sel@.len() as int));
            false
        },
    }
}

// --- laws --------------------------------------------------------------------

/// Tab then BackTab comes back to the same role, and three Tabs go round all
/// three roles back to the first.
pub proof fn lemma_tab_cycle(tab: usize)
    requires
        tab < TAB_COUNT,
    ensures
        ((tab + 1) % TAB_COUNT as int + TAB_COUNT - 1) % TAB_COUNT as int == tab,
        (((tab + 1) % TAB_COUNT as int + 1) % TAB_COUNT as int + 1) % TAB_COUNT as int == tab,
{
}

/// A worker labelled `label` is running in `s`.
pub open spec fn busy_with(s: AppState, label: Seq<char>) -> bool {
    s.busy matches Some(l) && l@ == label
}

/// The keys every role shares, with the help overlay closed: Esc and Ctrl+C
/// quit, '?' opens the help, Tab and BackTab step the role forward and back.
/// None of them starts work.
pub proof fn lemma_global_keys(a: AppState, b: AppState, key: Key, r: Option<Action>)
    requires
        a.wf(),
        !a.show_help,
        key_handled(a, b, key, r),
    ensures
        (key == Key::Esc || key == Key::Interrupt) ==> r is None && b.should_quit,
        key == Key::Char('?') ==> r is None && b.show_help,
        key == Key::Tab ==> r is None && b.tab == (a.tab + 1) % 3,
        key == Key::BackTab ==> r is None && b.tab == (a.tab + 2) % 3,
        key == Key::Char('q') ==> r is None && b.should_quit,
{
}

/// With the help overlay shown, every key only closes it.
pub proof fn lemma_help_swallows_keys(a: AppState, b: AppState, key: Key, r: Option<Action>)
    requires
        a.show_help,
        key_handled(a, b, key, r),
    ensures
        r is None,
        !b.show_help,
        b.tab == a.tab && b.busy == a.busy && b.log == a.log && b.should_quit == a.should_quit,
        b.fields == a.fields && b.fund_amount == a.fund_amount && b.profile == a.profile,
{
}

/// The Buyer tab's keys, with the help closed and no worker running: 'f'
/// funds the typed amount, 'x' refunds, 's' refreshes the on-chain status,
/// each marking the worker busy under its label; digits extend the fund
/// amount and Backspace shortens it.
pub proof fn lemma_buyer_keys(a: AppState, b: AppState, key: Key, r: Option<Action>)
    requires
        a.wf(),
        !a.show_help,
        a.tab == 0,
        a.busy is None,
        key_handled(a, b, key, r),
    ensures
        key == Key::Char('s') ==> r == Some(Action::RefreshStatus) && busy_with(b, "status"@),
        key == Key::Char('x') ==> r == Some(Action::Refund) && busy_with(b, "refund"@),
        key == Key::Char('f') ==> match parse_u64_spec(trim(a.fund_amount@)) {
            Some(amount) => r == Some(Action::Fund(amount)) && busy_with(b, "fund"@),
            None => r is None && b.busy is None,
        },
        forall|c: char|
            '0' <= c <= '9' && key == Key::Char(c) ==> r is None && b.fund_amount@
                == a.fund_amount@.push(c),
        key == Key::Backspace ==> r is None && (a.fund_amount@.len() > 0 ==> b.fund_amount@
            == a.fund_amount@.drop_last()),
        key == Key::Char('a') || key == Key::Char('p') || key == Key::Char('r') ==> r is None && b
            == a,
{
}

/// The Seller tab's keys, with the help closed and no worker running:
/// 'p' and Enter prove the typed documents, 'r' releases with the last proof,
/// 'd' toggles dev mode, Up and Down move between the three fields, digits
/// extend the focused field and '-' only the date field.
pub proof fn lemma_seller_keys(a: AppState, b: AppState, key: Key, r: Option<Action>)
    requires
        a.wf(),
        !a.show_help,
        a.tab == 1,
        a.busy is None,
        key_handled(a, b, key, r),
    ensures
        (key == Key::Char('p') || key == Key::Enter) ==> match parse_input_spec(
            fields_view(a.fields@),
        ) {
            Ok((amt, s, bal)) => (r matches Some(Action::Prove(i)) && i.amount_usdc == amt
                && i.ship_date_unix == s && i.buyer_balance_usdc == bal) && busy_with(b, "prove"@),
            Err(_) => r is None && b.busy is None,
        },
        key == Key::Char('r') ==> match a.proof {
            Some(p) => (r matches Some(Action::Release { seal, journal }) && seal@ == p.seal@
                && journal@ == p.journal@) && busy_with(b, "release"@),
            None => r is None && b.busy is None,
        },
        key == Key::Char('d') ==> r is None && b.dev_mode == !a.dev_mode,
        key == Key::Down ==> r is None && b.field_idx == (a.field_idx + 1) % 3,
        key == Key::Up ==> r is None && b.field_idx == (a.field_idx + 2) % 3,
        forall|c: char|
            ('0' <= c <= '9' || (c == '-' && a.field_idx == 1)) && key == Key::Char(c) ==> r is None
                && b.field_idx == a.field_idx && b.fields@[a.field_idx as int]@ == a.fields@[a.field_idx as int]@.push(c),
        key == Key::Char('-') && a.field_idx != 1 ==> r is None && b == a,
        key == Key::Char('f') || key == Key::Char('x') || key == Key::Char('a') ==> r is None && b
            == a,
{
    if key == Key::Char('p') || key == Key::Enter || key == Key::Char('r') {
    } else {
        assert forall|c: char|
            ('0' <= c <= '9' || (c == '-' && a.field_idx == 1)) && key == Key::Char(c) implies r
                is None && b.field_idx == a.field_idx && b.fields@[a.field_idx as int]@
                == a.fields@[a.field_idx as int]@.push(c) by {
            assert(fields_view(b.fields@).len() == b.fields@.len());
            assert(fields_view(a.fields@).len() == a.fields@.len());
            assert(fields_view(b.fields@)[a.field_idx as int] == b.fields@[a.field_idx as int]@);
            assert(fields_view(a.fields@)[a.field_idx as int] == a.fields@[a.field_idx as int]@);
        }
    }
}

/// The Auditor tab's keys, with the help closed and no worker running: 'a'
/// opens the disclosure, Right and Left step the profile round
/// Tax → Regulator → Full.
pub proof fn lemma_auditor_keys(a: AppState, b: AppState, key: Key, r: Option<Action>)
    requires
        a.wf(),
        !a.show_help,
        a.tab == 2,
        a.busy is None,
        key_handled(a, b, key, r),
    ensures
        key == Key::Char('a') ==> r == Some(Action::Audit) && busy_with(b, "audit"@),
        key == Key::Right ==> r is None && (a.profile == Profile::Tax ==> b.profile
            == Profile::Regulator) && (a.profile == Profile::Regulator ==> b.profile
            == Profile::Full) && (a.profile == Profile::Full ==> b.profile == Profile::Tax),
        key == Key::Left ==> r is None && (a.profile == Profile::Tax ==> b.profile == Profile::Full)
            && (a.profile == Profile::Regulator ==> b.profile == Profile::Tax) && (a.profile
            == Profile::Full ==> b.profile == Profile::Regulator),
        key == Key::Char('f') || key == Key::Char('x') || key == Key::Char('s') || key == Key::Char(
            'p',
        ) ==> r is None && b == a,
{
}

/// Up then Down comes back to the same field.
pub proof fn lemma_field_cycle(idx: usize)
    requires
        idx < FIELD_COUNT,
    ensures
        ((idx + FIELD_COUNT - 1) % FIELD_COUNT as int + 1) % FIELD_COUNT as int == idx,
{
}

/// Typing a character and then erasing one gives the field back.
pub proof fn lemma_type_then_erase(fields: Seq<Seq<char>>, idx: int, c: char)
    requires
        0 <= idx < fields.len(),
    ensures
        ({
            let typed = fields.update(idx, fields[idx].push(c));
            let f = typed[idx];
            typed.update(idx, if f.len() > 0 { f.drop_last() } else { f }) == fields
        }),
{
    let typed = fields.update(idx, fields[idx].push(c));
    assert(typed[idx].drop_last() =~= fields[idx]);
    assert(typed.update(idx, typed[idx].drop_last()) =~= fields);
}

/// One worker at a time: while one runs, no key press starts another, the
/// running one stays recorded, and a key that would start one logs the
/// refusal; a key press that does start one found none running.
pub proof fn lemma_one_worker_at_a_time(a: AppState, b: AppState, key: Key, r: Option<Action>)
    requires
        key_handled(a, b, key, r),
    ensures
        a.busy is Some ==> r is None && b.busy == a.busy,
        r is Some ==> a.busy is None && b.busy is Some,
{
}

/// A refused start while a worker runs logs the busy line.
pub proof fn lemma_busy_refuses(
    a: AppState,
    b: AppState,
    r: Option<Action>,
    label: Seq<char>,
    is_action: spec_fn(Action) -> bool,
)
    requires
        a.busy is Some,
        started(a, b, r, label, is_action),
    ensures
        r is None,
        b.busy == a.busy,
        strings_view(b.log@) == pushed(strings_view(a.log@), busy_line(a.busy->0@)),
{
}

/// With the help overlay closed, Tab then BackTab comes back to the same
/// role and changes nothing else that Tab changed.
pub proof fn lemma_tab_then_back_tab(
    a: AppState,
    b: AppState,
    c: AppState,
    r1: Option<Action>,
    r2: Option<Action>,
)
    requires
        a.wf(),
        !a.show_help,
        key_handled(a, b, Key::Tab, r1),
        key_handled(b, c, Key::BackTab, r2),
    ensures
        r1 is None && r2 is None,
        c.tab == a.tab,
        c.show_help == a.show_help,
        c.fields == a.fields,
        c.field_idx == a.field_idx,
        c.log == a.log,
        c.busy == a.busy,
{
}

/// The help overlay opens with '?' and any next key closes it again,
/// leaving everything else as it was.
pub proof fn lemma_help_round_trip(
    a: AppState,
    b: AppState,
    c: AppState,
    key: Key,
    r1: Option<Action>,
    r2: Option<Action>,
)
    requires
        !a.show_help,
        key_handled(a, b, Key::Char('?'), r1),
        key_handled(b, c, key, r2),
    ensures
        b.show_help,
        r1 is None && r2 is None,
        !c.show_help,
        c.tab == a.tab && c.fields == a.fields && c.field_idx == a.field_idx,
        c.fund_amount == a.fund_amount && c.profile == a.profile && c.dev_mode == a.dev_mode,
        c.log == a.log && c.busy == a.busy && c.should_quit == a.should_quit,
{
}

/// Right then Left on the Auditor tab comes back to the same profile, and
/// three steps go round all three profiles.
pub proof fn lemma_profile_cycle(p: Profile)
    ensures
        prev_profile(next_profile(p)) == p,
        next_profile(next_profile(next_profile(p))) == p,
{
}

/// The log keeps the newest lines: after a push, its last line is the new
/// one and it never holds more than `LOG_LINES` lines.
pub proof fn lemma_log_keeps_newest(log: Seq<Seq<char>>, line: Seq<char>)
    requires
        log.len() <= LOG_LINES,
    ensures
        pushed(log, line).len() <= LOG_LINES,
        pushed(log, line).last() == line,
        pushed(log, line).len() == if log.len() < LOG_LINES {
            log.len() + 1
        } else {
            LOG_LINES as nat
        },
{
}

} // verus!
