//! The browser client's connect form: the server address is typed into a
//! field and taken when Enter is pressed.
use vstd::prelude::*;

verus! {

/// The key code of Enter.
pub const ENTER_KEY: u32 = 13;

/// Whether `c` has the Unicode White_Space property: the 25 code points
/// U+0009 to U+000D, U+0020, U+0085, U+00A0, U+1680, U+2000 to U+200A,
/// U+2028, U+2029, U+202F, U+205F and U+3000.
pub open spec fn is_white_space(c: char) -> bool {
    let u = c as u32;
    ||| 9 <= u <= 13
    ||| u == 32 || u == 0x85 || u == 0xa0 || u == 0x1680
    ||| 0x2000 <= u <= 0x200a
    ||| u == 0x2028 || u == 0x2029 || u == 0x202f || u == 0x205f || u == 0x3000
}

/// `s` without its leading white space.
pub open spec fn trim_start(s: Seq<char>) -> Seq<char>
    decreases s.len(),
{
    if s.len() > 0 && is_white_space(s[0]) {
        trim_start(s.drop_first())
    } else {
        s
    }
}

/// `s` without its trailing white space.
pub open spec fn trim_end(s: Seq<char>) -> Seq<char>
    decreases s.len(),
{
    if s.len() > 0 && is_white_space(s.last()) {
        trim_end(s.drop_last())
    } else {
        s
    }
}

/// `s` without its leading and trailing white space.
pub open spec fn trimmed(s: Seq<char>) -> Seq<char> {
    trim_end(trim_start(s))
}

/// Relies on `str::trim`: the text without its leading and trailing
/// characters that have the Unicode White_Space property.
#[verifier::external_body]
fn trim(s: &str) -> (r: String)
    ensures
        r@ == trimmed(s@),
{
    s.trim().to_string()
}

/// The line the form shows under its field.
pub open spec fn status_text(addr: Seq<char>) -> Seq<char> {
    if addr.len() == 0 {
        "Enter Multiaddr to connect"@
    } else {
        "Connecting to "@ + addr
    }
}

/// The connect form: the text in its field, and the address it connects to,
/// empty until one is entered.
pub struct ConnectForm {
    input: String,
    addr: String,
}

impl ConnectForm {
    pub closed spec fn input_view(&self) -> Seq<char> {
        self.input@
    }

    pub closed spec fn addr_view(&self) -> Seq<char> {
        self.addr@
    }

    /// The text in the field.
    pub fn input(&self) -> (r: String)
        ensures
            r@ == self.input_view(),
    {
        self.input.clone()
    }

    /// The address being connected to; empty while none was entered.
    pub fn addr(&self) -> (r: String)
        ensures
            r@ == self.addr_view(),
    {
        self.addr.clone()
    }

    /// The field now reads `value`.
    pub fn on_input(&mut self, value: String)
        ensures
            final(self).input_view() == value@,
            final(self).addr_view() == old(self).addr_view(),
    {
        self.input = value;
    }

    /// A key was pressed in the field: on Enter, a field that holds more than
    /// whitespace gives the address, trimmed, and is cleared.
    pub fn on_key(&mut self, key_code: u32)
        ensures
            key_code == ENTER_KEY && trimmed(old(self).input_view()).len() > 0 ==> {
                &&& final(self).addr_view() == trimmed(old(self).input_view())
                &&& final(self).input_view() == Seq::<char>::empty()
            },
            !(key_code == ENTER_KEY && trimmed(old(self).input_view()).len() > 0) ==> {
                &&& final(self).addr_view() == old(self).addr_view()
                &&& final(self).input_view() == old(self).input_view()
            },
    {
        if key_code == ENTER_KEY {
            let t = trim(self.input.as_str());
            if t.as_str().unicode_len() > 0 {
                self.addr = t;
                self.input = String::new();
            }
        }
    }

    /// The line shown under the field.
    pub fn status(&self) -> (r: String)
        ensures
            r@ == status_text(self.addr_view()),
    {
        if self.addr.as_str().unicode_len() == 0 {
            String::from_str("Enter Multiaddr to connect")
        } else {
            String::from_str("Connecting to ").concat(self.addr.as_str())
        }
    }
}

/// A connect form with an empty field and no address. The counter settings
/// `initial_value` and `step` are accepted and play no part in the form.
#[allow(non_snake_case)]
pub fn SimpleChat(initial_value: i32, step: i32) -> (r: ConnectForm)
    ensures
        r.input_view() == Seq::<char>::empty(),
        r.addr_view() == Seq::<char>::empty(),
{
    ConnectForm { input: String::new(), addr: String::new() }
}

} // verus!
