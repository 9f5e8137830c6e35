//! The records that travel in a frame's payload.

use vstd::prelude::*;

verus! {

/// One numeric parameter.
#[derive(Clone, Copy, Debug, PartialEq, Eq)]
pub struct ParamData {
    /// The parameter's number.
    pub p: u32,
    /// The parameter's value, held as the 64 bits of an IEEE 754 double.
    pub v: u64,
}

/// The eleven exponent bits of a double's bit pattern.
pub open spec fn exponent_bits(bits: u64) -> u64 {
    (bits / 0x10_0000_0000_0000) % 0x800
}

impl ParamData {
    /// The value is a finite number: neither an infinity nor a NaN. Only
    /// finite values can be written as JSON numbers.
    pub open spec fn finite(&self) -> bool {
        exponent_bits(self.v) != 0x7ff
    }

    /// Tells whether the value is a finite number.
    pub fn is_finite(&self) -> (finite: bool)
        ensures
            finite == self.finite(),
    {
        (self.v / 0x10_0000_0000_0000) % 0x800 != 0x7ff
    }
}

impl Default for ParamData {
    /// Parameter 0 with the value zero.
    fn default() -> (param: ParamData)
        ensures
            param.p == 0,
            param.v == 0,
    {
        ParamData { p: 0, v: 0 }
    }
}

/// A snapshot of the model that a transfer carries, and the chunk of data
/// that this packet contributes to it.
#[allow(non_snake_case)]
#[derive(Clone, Debug, PartialEq, Eq)]
pub struct ModelData {
    pub PacketID: u32,
    /// Marks the last packet of a session.
    pub Final: bool,
    pub SessionUUID: String,
    pub TotalFolders: u32,
    pub TotalFiles: u32,
    pub TotalFileSize: u32,
    pub TotalFileSizeMegabyte: u32,
    pub TotalPacketCount: u32,
    pub ModelName: String,
    pub ModelBasePath: String,
    pub OrderedDirsToCreate: Vec<String>,
    /// One item per file. The three lists that follow run parallel to this one.
    pub OrderedRelativeFiles: Vec<String>,
    pub OrderedAbsoluteFiles: Vec<String>,
    pub OrderedAbsoluteFileSizes: Vec<String>,
    pub OrderedNumberOfPayloadsPerFile: Vec<String>,
    /// This packet's place in the session.
    pub Sequence: u32,
    /// The length that the sender declares for `Data`. It is carried as it
    /// came and not held against `Data`.
    pub DataLength: u32,
    pub DataName: String,
    pub Data: String,
}

/// A model snapshot as contracts see it.
#[verifier::ext_equal]
pub ghost struct ModelDataView {
    pub packet_id: u32,
    pub last: bool,
    pub session_uuid: Seq<char>,
    pub total_folders: u32,
    pub total_files: u32,
    pub total_file_size: u32,
    pub total_file_size_megabyte: u32,
    pub total_packet_count: u32,
    pub model_name: Seq<char>,
    pub model_base_path: Seq<char>,
    pub dirs_to_create: Seq<Seq<char>>,
    pub relative_files: Seq<Seq<char>>,
    pub absolute_files: Seq<Seq<char>>,
    pub absolute_file_sizes: Seq<Seq<char>>,
    pub payloads_per_file: Seq<Seq<char>>,
    pub sequence: u32,
    pub data_length: u32,
    pub data_name: Seq<char>,
    pub data: Seq<char>,
}

impl ModelDataView {
    /// The number of files that the model lists.
    pub open spec fn file_count(self) -> nat {
        self.relative_files.len()
    }

    /// The four per-file lists have one item for each file. The list of
    /// directories is on its own, and the declared data length is carried
    /// as it came: neither is held against anything.
    pub open spec fn well_formed(self) -> bool {
        &&& self.absolute_files.len() == self.file_count()
        &&& self.absolute_file_sizes.len() == self.file_count()
        &&& self.payloads_per_file.len() == self.file_count()
    }
}

impl View for ModelData {
    type V = ModelDataView;

    open spec fn view(&self) -> ModelDataView {
        ModelDataView {
            packet_id: self.PacketID,
            last: self.Final,
            session_uuid: self.SessionUUID@,
            total_folders: self.TotalFolders,
            total_files: self.TotalFiles,
            total_file_size: self.TotalFileSize,
            total_file_size_megabyte: self.TotalFileSizeMegabyte,
            total_packet_count: self.TotalPacketCount,
            model_name: self.ModelName@,
            model_base_path: self.ModelBasePath@,
            dirs_to_create: self.OrderedDirsToCreate.deep_view(),
            relative_files: self.OrderedRelativeFiles.deep_view(),
            absolute_files: self.OrderedAbsoluteFiles.deep_view(),
            absolute_file_sizes: self.OrderedAbsoluteFileSizes.deep_view(),
            payloads_per_file: self.OrderedNumberOfPayloadsPerFile.deep_view(),
            sequence: self.Sequence,
            data_length: self.DataLength,
            data_name: self.DataName@,
            data: self.Data@,
        }
    }
}

impl ModelData {
    /// Tells whether the four per-file lists have the same length.
    pub fn is_well_formed(&self) -> (ok: bool)
        ensures
            ok == self@.well_formed(),
    {
        let files = self.OrderedRelativeFiles.len();
        self.OrderedAbsoluteFiles.len() == files && self.OrderedAbsoluteFileSizes.len() == files
            && self.OrderedNumberOfPayloadsPerFile.len() == files
    }
}

/// The message that one frame carries.
#[allow(non_snake_case)]
#[derive(Clone, Debug, PartialEq, Eq)]
pub struct Entry {
    pub Ver: u32,
    pub Time: u64,
    pub Type: u32,
    pub Command: u32,
    /// Whether the sender located the model that the entry refers to.
    pub found: bool,
    pub Fwd: u32,
    pub USB: u32,
    /// The parameters, in the order in which they are transmitted.
    pub Data: Vec<ParamData>,
    pub ModelData: ModelData,
}

/// An entry as contracts see it.
#[verifier::ext_equal]
pub ghost struct EntryView {
    pub ver: u32,
    pub time: u64,
    pub kind: u32,
    pub command: u32,
    pub found: bool,
    pub fwd: u32,
    pub usb: u32,
    pub params: Seq<ParamData>,
    pub model: ModelDataView,
}

impl EntryView {
    /// The entry is valid: its model is well formed and every parameter
    /// value is finite, so that it can be written as a JSON number and
    /// read back as the same value.
    pub open spec fn well_formed(self) -> bool {
        &&& self.model.well_formed()
        &&& forall|i: int| 0 <= i < self.params.len() ==> (#[trigger] self.params[i]).finite()
    }
}

impl View for Entry {
    type V = EntryView;

    open spec fn view(&self) -> EntryView {
        EntryView {
            ver: self.Ver,
            time: self.Time,
            kind: self.Type,
            command: self.Command,
            found: self.found,
            fwd: self.Fwd,
            usb: self.USB,
            params: self.Data@,
            model: self.ModelData@,
        }
    }
}

impl Entry {
    /// Tells whether the entry is well formed.
    pub fn is_well_formed(&self) -> (ok: bool)
        ensures
            ok == self@.well_formed(),
    {
        if !self.ModelData.is_well_formed() {
            return false;
        }
        let mut checked: usize = 0;
        while checked < self.Data.len()
            invariant
                checked <= self.Data@.len(),
                forall|i: int| 0 <= i < checked ==> (#[trigger] self.Data@[i]).finite(),
            decreases self.Data@.len() - checked,
        {
            if !self.Data[checked].is_finite() {
                assert(!self@.params[checked as int].finite());
                return false;
            }
            checked = checked + 1;
        }
        true
    }
}

/// The text of the status line for an entry whose `found` flag is `found`.
pub open spec fn status_text(found: bool) -> Seq<char> {
    if found {
        "Model found"@
    } else {
        "Model not found"@
    }
}

/// The status line that reports a received entry. It tells whether the
/// entry's `found` flag was set, and nothing else about the entry.
pub fn status_line(found: bool) -> (line: &'static str)
    ensures
        line@ == status_text(found),
{
    if found {
        "Model found"
    } else {
        "Model not found"
    }
}

} // verus!
