//! The backend's check of an emitted module.
//!
//! The module is handed to LLVM as text. LLVM parses the text and runs its
//! verifier on the module; what it finds wrong comes back as a message.

use crate::context::GenerationContext;
use crate::state::State;
use crate::text::{module_text, render_module, strings_fit};
use vstd::prelude::*;

verus! {

/// Why the backend does not take a module.
#[derive(Clone, Debug, PartialEq, Eq)]
pub enum BackendError {
    /// A string of the module is too long for its size to be written.
    StringTooLong,
    /// LLVM rejects the module, with this message.
    Rejected(String),
}

/// The text is that of a module: what `render_module` gives for some state
/// of a compilation.
pub open spec fn rendered(ir: Seq<char>) -> bool {
    exists|st: State| strings_fit(st.strings) && ir == #[trigger] module_text(st)
}

/// The message with which LLVM's parser refuses a text, if it refuses it.
pub uninterp spec fn llvm_parse_error(ir: Seq<char>) -> Option<Seq<char>>;

/// The message with which LLVM's verifier refuses the module that a text
/// is parsed to, if it refuses it.
pub uninterp spec fn llvm_verify_error(ir: Seq<char>) -> Option<Seq<char>>;

/// What LLVM finds wrong with a module given as text, if anything: the
/// message of its parser, or else that of its verifier.
pub open spec fn llvm_diagnosis(ir: Seq<char>) -> Option<Seq<char>> {
    match llvm_parse_error(ir) {
        Some(message) => Some(message),
        None => llvm_verify_error(ir),
    }
}

/// Calls `Context::create_module_from_ir` of inkwell on a copy of the text,
/// and `Module::verify` on the module that it yields. The result is the
/// message of the first of the two that fails, and `None` if neither does.
///
/// Only the text of a module is handed to LLVM. What is claimed of LLVM is
/// that its answer is a function of the text: the parser reads the text in
/// a fresh context and nothing else, and the verifier reads the module that
/// came of it. Which texts LLVM takes is not claimed.
#[verifier::external_body]
fn llvm_check(ir: &str) -> (diagnosis: Option<String>)
    requires
        rendered(ir@),
    ensures
        match llvm_parse_error(ir@) {
            Some(message) => diagnosis matches Some(d) && d@ == message,
            None => match llvm_verify_error(ir@) {
                Some(message) => diagnosis matches Some(d) && d@ == message,
                None => diagnosis is None,
            },
        },
{
    let context = inkwell::context::Context::create();
    let buffer = inkwell::memory_buffer::MemoryBuffer::create_from_memory_range_copy(
        ir.as_bytes(),
        "main",
    );
    let diagnosis = match context.create_module_from_ir(buffer) {
        Ok(module) => match module.verify() {
            Ok(()) => None,
            Err(message) => Some(message.to_string()),
        },
        Err(message) => Some(message.to_string()),
    };
    diagnosis
}

/// What a diagnosis means for the module: none is acceptance, a message is
/// rejection with that message.
pub fn verdict(diagnosis: Option<String>) -> (r: Result<(), BackendError>)
    ensures
        match diagnosis {
            Some(message) => r == Err::<(), BackendError>(BackendError::Rejected(message)),
            None => r is Ok,
        },
{
    match diagnosis {
        Some(message) => Err(BackendError::Rejected(message)),
        None => Ok(()),
    }
}

/// Has LLVM check the emitted module.
///
/// A module with a string that is too long is not handed to LLVM, and only
/// such a module gives `StringTooLong`. Every other module is handed to LLVM
/// as the text that `render_module` gives; it is accepted if and only if
/// LLVM finds nothing wrong with that text, and rejected with LLVM's message
/// if it does.
pub fn verify_module(gc: &GenerationContext) -> (r: Result<(), BackendError>)
    ensures
        r matches Err(BackendError::StringTooLong) <==> !strings_fit(gc@.strings),
        strings_fit(gc@.strings) ==> (r is Ok <==> llvm_diagnosis(module_text(gc@)) is None),
        r matches Err(BackendError::Rejected(message)) ==> llvm_diagnosis(module_text(gc@))
            == Some(message@),
{
    match render_module(gc) {
        Some(ir) => {
            assert(rendered(ir@)) by {
                assert(ir@ == module_text(gc@));
            }
            verdict(llvm_check(ir.as_str()))
        },
        None => Err(BackendError::StringTooLong),
    }
}

} // verus!
