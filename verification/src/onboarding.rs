//! The first-run setup dialog's state machine.
//!
//! The terminal I/O around it lives outside the library; what is modeled
//! here is every decision the dialog makes: how a key stroke moves between
//! the three fields and edits them, when the form counts as complete, and
//! how the final configuration is assembled and checked.

use vstd::prelude::*;
use vstd::string::*;

use crate::digits::{is_dec_digit, parse_u16, parsed_u16};

verus! {

/// The configuration the dialog produces.
#[derive(Debug, Clone)]
pub struct OnboardingConfig {
    pub tmdb_api_key: String,
    pub database_url: String,
    pub port: u16,
}

/// Why the dialog's form cannot be assembled.
#[derive(Debug, Clone, Copy, PartialEq, Eq, Structural)]
pub enum OnboardingError {
    /// The catalog API key field is blank.
    MissingApiKey,
    /// The port field holds something other than an unsigned 16-bit decimal.
    InvalidPort,
}

/// A key stroke, as the dialog distinguishes them.
#[derive(Debug, Clone, Copy)]
pub enum KeyInput {
    Escape,
    Enter,
    Tab,
    Down,
    Up,
    Backspace,
    /// A plain character, typed without a control modifier.
    Character(char),
    /// The save chord: the `s` key with the control modifier.
    ControlS,
    Other,
}

/// A whitespace character, for the purpose of trimming field input.
pub open spec fn is_space(c: char) -> bool {
    c == ' ' || c == '\t' || c == '\n' || c == '\r'
}

/// The sequence without its leading whitespace.
pub open spec fn trim_front(s: Seq<char>) -> Seq<char>
    decreases s.len(),
{
    if s.len() > 0 && is_space(s[0]) {
        trim_front(s.skip(1))
    } else {
        s
    }
}

/// The sequence without its trailing whitespace.
pub open spec fn trim_back(s: Seq<char>) -> Seq<char>
    decreases s.len(),
{
    if s.len() > 0 && is_space(s.last()) {
        trim_back(s.drop_last())
    } else {
        s
    }
}

/// The sequence without leading and trailing whitespace.
pub open spec fn trim_view(s: Seq<char>) -> Seq<char> {
    trim_back(trim_front(s))
}

fn is_space_char(c: char) -> (r: bool)
    ensures
        r == is_space(c),
{
    c == ' ' || c == '\t' || c == '\n' || c == '\r'
}

/// The string without leading and trailing whitespace, exactly as
/// [`trim_view`] states it.
pub fn trimmed(s: &str) -> (r: String)
    ensures
        r@ == trim_view(s@),
{
    let n = s.unicode_len();
    proof {
        assert(s@.skip(0) =~= s@);
    }
    let mut a: usize = 0;
    while a < n && is_space_char(s.get_char(a))
        invariant
            a <= n,
            n == s@.len(),
            trim_front(s@) == trim_front(s@.skip(a as int)),
        decreases n - a,
    {
        proof {
            assert(s@.skip(a as int).skip(1) =~= s@.skip(a + 1));
            assert(s@.skip(a as int)[0] == s@[a as int]);
        }
        a += 1;
    }
    let ghost f = trim_front(s@);
    proof {
        if a < n {
            assert(s@.skip(a as int)[0] == s@[a as int]);
        } else {
            assert(s@.skip(a as int) =~= Seq::<char>::empty());
        }
        assert(f == s@.skip(a as int));
    }
    proof {
        assert(f.take(n - a) =~= f);
    }
    let mut b: usize = n;
    while b > a && is_space_char(s.get_char(b - 1))
        invariant
            a <= b <= n,
            n == s@.len(),
            f == s@.skip(a as int),
            trim_back(f) == trim_back(f.take(b - a)),
        decreases b,
    {
        proof {
            assert(f.take(b - a).drop_last() =~= f.take(b - 1 - a));
            assert(f.take(b - a).last() == s@[b - 1]);
        }
        b -= 1;
    }
    proof {
        if b > a {
            assert(f.take(b - a).last() == s@[b - 1]);
        } else {
            assert(f.take(b - a) =~= Seq::<char>::empty());
        }
        assert(trim_back(f) == f.take(b - a));
        assert(f.take(b - a) =~= s@.subrange(a as int, b as int));
    }
    let r = s.substring_char(a, b).to_owned();
    r
}

/// The dialog's editable state: which field is active, the three field
/// buffers, and whether the user asked to leave.
#[derive(Debug, Clone)]
pub struct OnboardingState {
    pub step: usize,
    pub tmdb_api_key: String,
    pub database_url: String,
    pub port: String,
    pub exit_requested: bool,
}

/// Mathematical image of an [`OnboardingState`].
pub struct OnboardingStateV {
    pub step: int,
    pub tmdb_api_key: Seq<char>,
    pub database_url: Seq<char>,
    pub port: Seq<char>,
    pub exit_requested: bool,
}

impl View for OnboardingState {
    type V = OnboardingStateV;

    open spec fn view(&self) -> OnboardingStateV {
        OnboardingStateV {
            step: self.step as int,
            tmdb_api_key: self.tmdb_api_key@,
            database_url: self.database_url@,
            port: self.port@,
            exit_requested: self.exit_requested,
        }
    }
}

/// The form is complete when the API key field holds more than whitespace.
pub open spec fn spec_complete(s: OnboardingStateV) -> bool {
    trim_view(s.tmdb_api_key).len() > 0
}

/// The buffer of the active field.
pub open spec fn spec_field(s: OnboardingStateV) -> Seq<char> {
    if s.step == 0 {
        s.tmdb_api_key
    } else if s.step == 1 {
        s.database_url
    } else {
        s.port
    }
}

/// The state with the active field's buffer replaced.
pub open spec fn spec_with_field(s: OnboardingStateV, f: Seq<char>) -> OnboardingStateV {
    if s.step == 0 {
        OnboardingStateV { tmdb_api_key: f, ..s }
    } else if s.step == 1 {
        OnboardingStateV { database_url: f, ..s }
    } else {
        OnboardingStateV { port: f, ..s }
    }
}

/// How one key stroke rewrites the state, and whether the dialog is done:
/// escape and the plain `q` ask to leave; the save chord and a final enter
/// finish when the form is complete; enter, tab and the arrows move between
/// the fields; backspace and plain characters edit the active field, the
/// port field accepting only digits.
pub open spec fn spec_handle_key(s: OnboardingStateV, key: KeyInput) -> (OnboardingStateV, bool) {
    match key {
        KeyInput::Escape => (OnboardingStateV { exit_requested: true, ..s }, false),
        KeyInput::Enter => if s.step < 2 {
            (OnboardingStateV { step: s.step + 1, ..s }, false)
        } else {
            (s, spec_complete(s))
        },
        KeyInput::Tab | KeyInput::Down => if s.step < 2 {
            (OnboardingStateV { step: s.step + 1, ..s }, false)
        } else {
            (s, false)
        },
        KeyInput::Up => if s.step > 0 {
            (OnboardingStateV { step: s.step - 1, ..s }, false)
        } else {
            (s, false)
        },
        KeyInput::Backspace => if spec_field(s).len() > 0 {
            (spec_with_field(s, spec_field(s).drop_last()), false)
        } else {
            (s, false)
        },
        KeyInput::Character(c) => if c == 'q' {
            (OnboardingStateV { exit_requested: true, ..s }, false)
        } else if s.step == 2 {
            if is_dec_digit(c) {
                (spec_with_field(s, spec_field(s).push(c)), false)
            } else {
                (s, false)
            }
        } else {
            (spec_with_field(s, spec_field(s).push(c)), false)
        },
        KeyInput::ControlS => (s, spec_complete(s)),
        KeyInput::Other => (s, false),
    }
}

/// Relies on `String::push`: appends exactly one character.
#[verifier::external_body]
fn string_push_char(s: &mut String, c: char)
    ensures
        final(s)@ == old(s)@.push(c),
{
    s.push(c);
}

/// Relies on `String::pop`: removes and returns the last character of a
/// nonempty string; an empty string is unchanged.
#[verifier::external_body]
fn string_pop_char(s: &mut String) -> (r: Option<char>)
    ensures
        old(s)@.len() == 0 ==> final(s)@ == old(s)@ && r is None,
        old(s)@.len() > 0 ==> final(s)@ == old(s)@.drop_last() && r == Some(old(s)@.last()),
{
    s.pop()
}

impl OnboardingState {
    /// The state the dialog starts from: editing the API key, the store and
    /// port fields prefilled with their defaults.
    pub fn new() -> (s: Self)
        ensures
            s@.step == 0,
            s@.tmdb_api_key == Seq::<char>::empty(),
            s@.database_url == "sqlite://./streaming.db"@,
            s@.port == "3000"@,
            s@.exit_requested == false,
    {
        let s = OnboardingState {
            step: 0,
            tmdb_api_key: String::new(),
            database_url: "sqlite://./streaming.db".to_owned(),
            port: "3000".to_owned(),
            exit_requested: false,
        };
        s
    }

    /// Whether the form is complete, exactly as [`spec_complete`] states
    /// it.
    pub fn is_complete(&self) -> (r: bool)
        ensures
            r == spec_complete(self@),
    {
        let t = trimmed(self.tmdb_api_key.as_str());
        !t.as_str().is_empty()
    }

    /// Applies one key stroke, exactly as [`spec_handle_key`] states it;
    /// the result says whether the dialog is finished and the configuration
    /// should be assembled.
    pub fn handle_key(&mut self, key: KeyInput) -> (done: bool)
        ensures
            (final(self)@, done) == spec_handle_key(old(self)@, key),
    {
        match key {
            KeyInput::Escape => {
                self.exit_requested = true;
                false
            },
            KeyInput::Enter => {
                if self.step < 2 {
                    self.step = self.step + 1;
                    false
                } else {
                    self.is_complete()
                }
            },
            KeyInput::Tab | KeyInput::Down => {
                if self.step < 2 {
                    self.step = self.step + 1;
                }
                false
            },
            KeyInput::Up => {
                if self.step > 0 {
                    self.step = self.step - 1;
                }
                false
            },
            KeyInput::Backspace => {
                if self.step == 0 {
                    string_pop_char(&mut self.tmdb_api_key);
                } else if self.step == 1 {
                    string_pop_char(&mut self.database_url);
                } else {
                    string_pop_char(&mut self.port);
                }
                false
            },
            KeyInput::Character(c) => {
                if c == 'q' {
                    self.exit_requested = true;
                } else if self.step == 2 {
                    let cv = c as u32;
                    proof {
                        assert(c as int == cv as int);
                        assert('0' as int == 48 && '9' as int == 57);
                    }
                    if 48 <= cv && cv <= 57 {
                        string_push_char(&mut self.port, c);
                    }
                } else if self.step == 0 {
                    string_push_char(&mut self.tmdb_api_key, c);
                } else if self.step == 1 {
                    string_push_char(&mut self.database_url, c);
                } else {
                    string_push_char(&mut self.port, c);
                }
                false
            },
            KeyInput::ControlS => self.is_complete(),
            KeyInput::Other => false,
        }
    }

    /// Assembles the configuration from the trimmed fields.  Fails exactly
    /// when the API key is blank, or when the port field is neither blank
    /// (which falls back to the default) nor a valid unsigned 16-bit
    /// decimal.
    pub fn build_config(&self) -> (r: Result<OnboardingConfig, OnboardingError>)
        ensures
            match r {
                Ok(c) => {
                    &&& spec_complete(self@)
                    &&& c.tmdb_api_key@ == trim_view(self@.tmdb_api_key)
                    &&& c.database_url@ == (if trim_view(self@.database_url).len() == 0 {
                        "sqlite://./streaming.db"@
                    } else {
                        trim_view(self@.database_url)
                    })
                    &&& c.port as int == (if trim_view(self@.port).len() == 0 {
                        3000int
                    } else {
                        parsed_u16(trim_view(self@.port))->Some_0 as int
                    })
                    &&& (trim_view(self@.port).len() > 0 ==> parsed_u16(
                        trim_view(self@.port),
                    ) is Some)
                },
                Err(OnboardingError::MissingApiKey) => !spec_complete(self@),
                Err(OnboardingError::InvalidPort) => spec_complete(self@) && trim_view(
                    self@.port,
                ).len() > 0 && parsed_u16(trim_view(self@.port)) is None,
            },
    {
        if !self.is_complete() {
            return Err(OnboardingError::MissingApiKey);
        }
        let port_str = trimmed(self.port.as_str());
        let port: u16 = if port_str.as_str().is_empty() {
            3000
        } else {
            match parse_u16(port_str.as_str()) {
                Some(v) => v,
                None => {
                    return Err(OnboardingError::InvalidPort);
                },
            }
        };
        let key = trimmed(self.tmdb_api_key.as_str());
        let url_trimmed = trimmed(self.database_url.as_str());
        let url: String = if url_trimmed.as_str().is_empty() {
            "sqlite://./streaming.db".to_owned()
        } else {
            url_trimmed
        };
        Ok(OnboardingConfig { tmdb_api_key: key, database_url: url, port })
    }
}

} // verus!
