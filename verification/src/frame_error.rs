use vstd::prelude::*;

verus! {

/// The well-known protocol errors an agent may report in a DISCONNECT frame,
/// each with a numeric status code and a canonical message.
#[derive(Clone, Copy, PartialEq, Eq, Structural, Debug)]
#[allow(non_camel_case_types)]
pub enum FrameKnownError {
    normal,
    io_error,
    timeout,
    frame_is_too_big,
    invalid_frame_received,
    version_value_not_found,
    max_frame_size_value_not_found,
    capabilities_value_not_found,
    unsupported_version,
    max_frame_size_too_big_or_too_small,
    payload_fragmentation_is_not_supported,
    invalid_interlaced_frames,
    frame_id_not_found,
    resource_allocation_error,
    unknown,
}

/// The status code of each well-known error.
pub open spec fn frame_known_error_code(e: FrameKnownError) -> u32 {
    match e {
        FrameKnownError::normal => 0,
        FrameKnownError::io_error => 1,
        FrameKnownError::timeout => 2,
        FrameKnownError::frame_is_too_big => 3,
        FrameKnownError::invalid_frame_received => 4,
        FrameKnownError::version_value_not_found => 5,
        FrameKnownError::max_frame_size_value_not_found => 6,
        FrameKnownError::capabilities_value_not_found => 7,
        FrameKnownError::unsupported_version => 8,
        FrameKnownError::max_frame_size_too_big_or_too_small => 9,
        FrameKnownError::payload_fragmentation_is_not_supported => 10,
        FrameKnownError::invalid_interlaced_frames => 11,
        FrameKnownError::frame_id_not_found => 12,
        FrameKnownError::resource_allocation_error => 13,
        FrameKnownError::unknown => 99,
    }
}

/// The canonical human-readable message of each well-known error.
pub open spec fn frame_known_error_message(e: FrameKnownError) -> Seq<char> {
    match e {
        FrameKnownError::normal => "normal (no error occurred)"@,
        FrameKnownError::io_error => "I/O error"@,
        FrameKnownError::timeout => "A timeout occurred"@,
        FrameKnownError::frame_is_too_big => "frame is too big"@,
        FrameKnownError::invalid_frame_received => "invalid frame received"@,
        FrameKnownError::version_value_not_found => "version value not found"@,
        FrameKnownError::max_frame_size_value_not_found => "max-frame-size value not found"@,
        FrameKnownError::capabilities_value_not_found => "capabilities value not found"@,
        FrameKnownError::unsupported_version => "unsupported version"@,
        FrameKnownError::max_frame_size_too_big_or_too_small => "max-frame-size too big or too small"@,
        FrameKnownError::payload_fragmentation_is_not_supported => "payload fragmentation is not supported"@,
        FrameKnownError::invalid_interlaced_frames => "invalid interlaced frames"@,
        FrameKnownError::frame_id_not_found => "frame-id not found (it does not match any referenced frame)"@,
        FrameKnownError::resource_allocation_error => "resource allocation error"@,
        FrameKnownError::unknown => "an unknown error occurred"@,
    }
}

impl FrameKnownError {
    /// The status code carried in a DISCONNECT's `status-code` field.
    pub fn code(&self) -> (r: u32)
        ensures
            r == frame_known_error_code(*self),
    {
        match self {
            FrameKnownError::normal => 0,
            FrameKnownError::io_error => 1,
            FrameKnownError::timeout => 2,
            FrameKnownError::frame_is_too_big => 3,
            FrameKnownError::invalid_frame_received => 4,
            FrameKnownError::version_value_not_found => 5,
            FrameKnownError::max_frame_size_value_not_found => 6,
            FrameKnownError::capabilities_value_not_found => 7,
            FrameKnownError::unsupported_version => 8,
            FrameKnownError::max_frame_size_too_big_or_too_small => 9,
            FrameKnownError::payload_fragmentation_is_not_supported => 10,
            FrameKnownError::invalid_interlaced_frames => 11,
            FrameKnownError::frame_id_not_found => 12,
            FrameKnownError::resource_allocation_error => 13,
            FrameKnownError::unknown => 99,
        }
    }

    /// The canonical message carried in a DISCONNECT's `message` field.
    pub fn message(&self) -> (r: String)
        ensures
            r@ == frame_known_error_message(*self),
    {
        match self {
            FrameKnownError::normal => "normal (no error occurred)".to_owned(),
            FrameKnownError::io_error => "I/O error".to_owned(),
            FrameKnownError::timeout => "A timeout occurred".to_owned(),
            FrameKnownError::frame_is_too_big => "frame is too big".to_owned(),
            FrameKnownError::invalid_frame_received => "invalid frame received".to_owned(),
            FrameKnownError::version_value_not_found => "version value not found".to_owned(),
            FrameKnownError::max_frame_size_value_not_found => "max-frame-size value not found".to_owned(),
            FrameKnownError::capabilities_value_not_found => "capabilities value not found".to_owned(),
            FrameKnownError::unsupported_version => "unsupported version".to_owned(),
            FrameKnownError::max_frame_size_too_big_or_too_small => "max-frame-size too big or too small".to_owned(),
            FrameKnownError::payload_fragmentation_is_not_supported => "payload fragmentation is not supported".to_owned(),
            FrameKnownError::invalid_interlaced_frames => "invalid interlaced frames".to_owned(),
            FrameKnownError::frame_id_not_found => "frame-id not found (it does not match any referenced frame)".to_owned(),
            FrameKnownError::resource_allocation_error => "resource allocation error".to_owned(),
            FrameKnownError::unknown => "an unknown error occurred".to_owned(),
        }
    }
}

} // verus!
