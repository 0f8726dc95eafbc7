//! The task format and the processing that every pool applies to a task.

use vstd::prelude::*;
use vstd::utf8::encode_utf8;

use crate::decimal::{decimal_digits, decimal_value, is_numeral, lemma_rendering_is_numeral, push_decimal};

verus! {

/// A unit of work: an identifier and a text payload.
#[derive(Debug, Clone)]
pub struct TaskInput {
    pub id: u32,
    pub payload: String,
}

/// The result of a task: the identifier of its input and a text result.
#[derive(Debug)]
pub struct TaskOutput {
    pub id: u32,
    pub result: String,
}

impl View for TaskInput {
    type V = (u32, Seq<char>);

    open spec fn view(&self) -> (u32, Seq<char>) {
        (self.id, self.payload@)
    }
}

impl View for TaskOutput {
    type V = (u32, Seq<char>);

    open spec fn view(&self) -> (u32, Seq<char>) {
        (self.id, self.result@)
    }
}

/// The number of bytes of the UTF-8 encoding of `text` (what `str::len` counts).
pub open spec fn utf8_len(text: Seq<char>) -> nat {
    encode_utf8(text).len()
}

/// `processed: <payload> (len=<byte length of payload>)`.
pub open spec fn processed_text(payload: Seq<char>) -> Seq<char> {
    "processed: "@ + payload + " (len="@ + decimal_digits(utf8_len(payload)) + ")"@
}

/// What processing a task yields: the same identifier and the processed text.
pub open spec fn processed(input: (u32, Seq<char>)) -> (u32, Seq<char>) {
    (input.0, processed_text(input.1))
}

/// What `process_task` answers, read back from its output: the identifier of the
/// input, then the text `processed: `, the payload character for character,
/// ` (len=`, a numeral whose value is the number of bytes of the payload's UTF-8
/// encoding, and `)`.
pub proof fn law_process_task(input: TaskInput, output: TaskOutput)
    requires
        output@ == processed(input@),
    ensures
        output.id == input.id,
        exists|len_field: Seq<char>|
            {
                &&& is_numeral(len_field)
                &&& decimal_value(len_field) == encode_utf8(input.payload@).len()
                &&& output.result@ == "processed: "@ + input.payload@ + " (len="@ + len_field
                    + ")"@
            },
{
    let len_field = decimal_digits(utf8_len(input.payload@));
    lemma_rendering_is_numeral(utf8_len(input.payload@));
    assert(output.result@ == "processed: "@ + input.payload@ + " (len="@ + len_field + ")"@);
}

/// The byte length of `text`, as `str::len` reports it.
pub(crate) fn byte_len(text: &str) -> (n: usize)
    ensures
        n as nat == utf8_len(text@),
{
    text.as_bytes().len()
}

/// Processes one task: keeps its identifier and describes its payload together
/// with the payload's length in bytes.
pub fn process_task(input: TaskInput) -> (output: TaskOutput)
    ensures
        output@ == processed(input@),
{
    let len = byte_len(input.payload.as_str());
    let mut result = String::new();
    result.append("processed: ");
    result.append(input.payload.as_str());
    result.append(" (len=");
    push_decimal(&mut result, len);
    result.append(")");
    TaskOutput { id: input.id, result }
}

} // verus!
