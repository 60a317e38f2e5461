//! The two address inputs of the browser client, as state: what each holds,
//! how it changes, and the caption it shows.
use vstd::prelude::*;

verus! {

/// The text the uncontrolled input starts with: a sample server address.
pub const SAMPLE_ADDRESS: &'static str = "/ip6/2607:fea8:fec0:7337::d93a8:fec0:7337::d93a/udp/42069/webrtc/certhash/uEiBuHZVGRtZSmas1fc8dDmbSXUalQD7wzmBNR5XcwRb0cQ";

/// The caption shown under an input whose name is `name`.
pub open spec fn caption_text(name: Seq<char>) -> Seq<char> {
    "Name is: "@ + name
}

fn caption_of(name: &String) -> (r: String)
    ensures
        r@ == caption_text(name@),
{
    String::from_str("Name is: ").concat(name.as_str())
}

/// An input whose field always shows the name, which every keystroke updates.
pub struct ControlledInput {
    name: String,
}

impl ControlledInput {
    pub closed spec fn name_view(&self) -> Seq<char> {
        self.name@
    }

    /// The name, which is also what the field shows.
    pub fn name(&self) -> (r: String)
        ensures
            r@ == self.name_view(),
    {
        self.name.clone()
    }

    /// The field now reads `value`.
    pub fn on_input(&mut self, value: String)
        ensures
            final(self).name_view() == value@,
    {
        self.name = value;
    }

    pub fn caption(&self) -> (r: String)
        ensures
            r@ == caption_text(self.name_view()),
    {
        caption_of(&self.name)
    }
}

/// An input that keeps its own text; the name takes that text only when the
/// button is pressed.
pub struct UncontrolledInput {
    field: String,
    name: String,
}

impl UncontrolledInput {
    pub closed spec fn field_view(&self) -> Seq<char> {
        self.field@
    }

    pub closed spec fn name_view(&self) -> Seq<char> {
        self.name@
    }

    /// What the field shows.
    pub fn field(&self) -> (r: String)
        ensures
            r@ == self.field_view(),
    {
        self.field.clone()
    }

    pub fn name(&self) -> (r: String)
        ensures
            r@ == self.name_view(),
    {
        self.name.clone()
    }

    /// The field now reads `value`; the name stays.
    pub fn on_input(&mut self, value: String)
        ensures
            final(self).field_view() == value@,
            final(self).name_view() == old(self).name_view(),
    {
        self.field = value;
    }

    /// The button was pressed: the name takes the field's text.
    pub fn on_submit(&mut self)
        ensures
            final(self).field_view() == old(self).field_view(),
            final(self).name_view() == old(self).field_view(),
    {
        self.name = self.field.clone();
    }

    pub fn caption(&self) -> (r: String)
        ensures
            r@ == caption_text(self.name_view()),
    {
        caption_of(&self.name)
    }
}

/// A controlled input whose name starts as `Controlled`.
#[allow(non_snake_case)]
pub fn ControlledComponent() -> (r: ControlledInput)
    ensures
        r.name_view() == "Controlled"@,
{
    ControlledInput { name: String::from_str("Controlled") }
}

/// An uncontrolled input whose field and name start as the sample address.
#[allow(non_snake_case)]
pub fn UncontrolledComponent() -> (r: UncontrolledInput)
    ensures
        r.field_view() == SAMPLE_ADDRESS@,
        r.name_view() == SAMPLE_ADDRESS@,
{
    UncontrolledInput {
        field: String::from_str(SAMPLE_ADDRESS),
        name: String::from_str(SAMPLE_ADDRESS),
    }
}

} // verus!
