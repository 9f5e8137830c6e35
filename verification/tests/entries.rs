use session_wire::{
    status_line, DecodeError, Entry, FrameError, ModelData, ParamData, SessionError, SetupError,
};

fn model(files: usize) -> ModelData {
    let names: Vec<String> = (0..files).map(|i| format!("file{}", i)).collect();
    ModelData {
        PacketID: 3,
        Final: false,
        SessionUUID: String::from("6f1c3f9e-0b7a-4a51-9d43-2f8f4f0c1a77"),
        TotalFolders: 1,
        TotalFiles: files as u32,
        TotalFileSize: 2048,
        TotalFileSizeMegabyte: 1,
        TotalPacketCount: 4,
        ModelName: String::from("bridge"),
        ModelBasePath: String::from("/models/bridge"),
        OrderedDirsToCreate: vec![String::from("parts")],
        OrderedRelativeFiles: names.clone(),
        OrderedAbsoluteFiles: names.clone(),
        OrderedAbsoluteFileSizes: names.clone(),
        OrderedNumberOfPayloadsPerFile: names,
        Sequence: 1,
        DataLength: 4,
        DataName: String::from("file0"),
        Data: String::from("AAEC"),
    }
}

fn entry(found: bool, params: Vec<ParamData>) -> Entry {
    Entry {
        Ver: 1,
        Time: 1_700_000_000,
        Type: 2,
        Command: 7,
        found,
        Fwd: 0,
        USB: 0,
        Data: params,
        ModelData: model(2),
    }
}

#[test]
fn default_parameter_is_zero() {
    let param = ParamData::default();
    assert_eq!(param.p, 0);
    assert_eq!(param.v, 0);
    assert_eq!(f64::from_bits(param.v), 0.0);
}

#[test]
fn ordinary_values_are_finite() {
    for value in [0.0f64, -0.0, 1.5, -2.25e300, f64::MAX, f64::MIN, f64::MIN_POSITIVE, 5e-324] {
        let param = ParamData { p: 1, v: value.to_bits() };
        assert!(param.is_finite(), "{} is finite", value);
    }
}

#[test]
fn infinities_and_nan_are_not_finite() {
    for value in [f64::INFINITY, f64::NEG_INFINITY, f64::NAN, -f64::NAN] {
        let param = ParamData { p: 1, v: value.to_bits() };
        assert!(!param.is_finite());
    }
    assert!(!ParamData { p: 0, v: 0x7ff0_0000_0000_0001 }.is_finite());
    assert!(ParamData { p: 0, v: 0x7fef_ffff_ffff_ffff }.is_finite());
}

#[test]
fn finiteness_agrees_with_the_standard_library() {
    let mut bits: u64 = 0x0123_4567_89ab_cdef;
    for _ in 0..2000 {
        bits = bits.wrapping_mul(6364136223846793005).wrapping_add(1442695040888963407);
        let param = ParamData { p: 0, v: bits };
        assert_eq!(param.is_finite(), f64::from_bits(bits).is_finite());
        let top = ParamData { p: 0, v: bits | 0x7ff0_0000_0000_0000 };
        assert!(!top.is_finite());
    }
}

#[test]
fn parallel_lists_make_a_well_formed_model() {
    assert!(model(0).is_well_formed());
    assert!(model(3).is_well_formed());
}

#[test]
fn a_list_of_another_length_makes_the_model_ill_formed() {
    let mut sizes = model(3);
    sizes.OrderedAbsoluteFileSizes.pop();
    assert!(!sizes.is_well_formed());
    let mut absolute = model(3);
    absolute.OrderedAbsoluteFiles.push(String::from("extra"));
    assert!(!absolute.is_well_formed());
    let mut payloads = model(3);
    payloads.OrderedNumberOfPayloadsPerFile.clear();
    assert!(!payloads.is_well_formed());
}

#[test]
fn directories_are_not_counted_per_file() {
    let mut dirs = model(2);
    dirs.OrderedDirsToCreate = vec![];
    assert!(dirs.is_well_formed());
    dirs.OrderedDirsToCreate = vec![String::from("a"), String::from("b"), String::from("c")];
    assert!(dirs.is_well_formed());
}

#[test]
fn declared_data_length_is_not_enforced() {
    let mut data = model(1);
    data.DataLength = 9999;
    assert!(data.is_well_formed());
}

#[test]
fn entry_with_finite_parameters_is_well_formed() {
    assert!(entry(true, vec![]).is_well_formed());
    let params = vec![
        ParamData { p: 1, v: 0.5f64.to_bits() },
        ParamData { p: 2, v: (-3.0f64).to_bits() },
    ];
    assert!(entry(false, params).is_well_formed());
}

#[test]
fn entry_with_a_nan_is_ill_formed() {
    let params = vec![
        ParamData { p: 1, v: 0.5f64.to_bits() },
        ParamData { p: 2, v: f64::NAN.to_bits() },
        ParamData { p: 3, v: 1.0f64.to_bits() },
    ];
    assert!(!entry(true, params).is_well_formed());
}

#[test]
fn entry_with_an_ill_formed_model_is_ill_formed() {
    let mut broken = entry(true, vec![]);
    broken.ModelData.OrderedAbsoluteFiles.clear();
    assert!(!broken.is_well_formed());
}

#[test]
fn status_line_tells_found_from_not_found() {
    assert_eq!(status_line(true), "Model found");
    assert_eq!(status_line(false), "Model not found");
}

#[test]
fn entries_compare_field_for_field() {
    let one = entry(true, vec![ParamData { p: 1, v: 2.5f64.to_bits() }]);
    let same = one.clone();
    assert_eq!(one, same);
    let mut other = one.clone();
    other.ModelData.Sequence = 2;
    assert_ne!(one, other);
    let mut reordered = entry(true, vec![ParamData { p: 2, v: 0 }, ParamData { p: 1, v: 0 }]);
    let ordered = entry(true, vec![ParamData { p: 1, v: 0 }, ParamData { p: 2, v: 0 }]);
    assert_ne!(reordered, ordered);
    reordered.Data.reverse();
    assert_eq!(reordered, ordered);
}

#[test]
fn every_error_has_its_diagnostic() {
    assert_eq!(
        SessionError::Frame(FrameError::TruncatedLengthPrefix).diagnostic(),
        "Cannot read content length"
    );
    assert_eq!(
        SessionError::Frame(FrameError::TruncatedPayload).diagnostic(),
        "Unable to read bytes from front_stream"
    );
    assert_eq!(SessionError::Decode(DecodeError::InvalidEncoding).diagnostic(), "Invalid utf-8 string");
    assert_eq!(SessionError::Decode(DecodeError::SchemaMismatch).diagnostic(), "Invalid data struct");
    let all = [
        SessionError::Setup(SetupError::BindFailure),
        SessionError::Setup(SetupError::AcceptFailure),
        SessionError::Setup(SetupError::ConnectFailure),
        SessionError::Frame(FrameError::TruncatedLengthPrefix),
        SessionError::Frame(FrameError::TruncatedPayload),
        SessionError::Frame(FrameError::WriteFailure),
        SessionError::Decode(DecodeError::InvalidEncoding),
        SessionError::Decode(DecodeError::SchemaMismatch),
    ];
    for (i, one) in all.iter().enumerate() {
        assert!(!one.diagnostic().is_empty());
        for other in &all[i + 1..] {
            assert_ne!(one.diagnostic(), other.diagnostic());
        }
    }
}
