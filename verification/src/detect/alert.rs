//! Alerts raised by the detectors.

use vstd::prelude::*;

verus! {

/// A detection: which detector raised it, for which process, what it saw,
/// and labelled details.
#[derive(Debug, Clone)]
pub struct SyscallAlert {
    pub detector_name: &'static str,
    pub process_id: u32,
    pub primary_action: String,
    pub context: Vec<(&'static str, String)>,
}

/// The mathematical value of an alert: all text as character sequences.
#[verifier::ext_equal]
pub struct AlertView {
    pub detector_name: Seq<char>,
    pub process_id: u32,
    pub primary_action: Seq<char>,
    pub context: Seq<(Seq<char>, Seq<char>)>,
}

impl View for SyscallAlert {
    type V = AlertView;

    open spec fn view(&self) -> AlertView {
        AlertView {
            detector_name: self.detector_name@,
            process_id: self.process_id,
            primary_action: self.primary_action@,
            context: self.context@.map_values(|kv: (&'static str, String)| (kv.0@, kv.1@)),
        }
    }
}

} // verus!
