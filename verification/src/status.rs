use vstd::prelude::*;

verus! {

/// The bit shared by both directional transmission-failure codes.
pub const TRANSMIT_FAILED_BIT: i64 = 32;

/// Status code returned for every processed delta record.
///
/// The numeric form has bit structure: `SendFailed` and `ReceiveFailed`
/// both carry [`TRANSMIT_FAILED_BIT`] in addition to a direction-specific
/// bit, so one mask test recognises "some transmission failed" regardless
/// of direction.
#[derive(Clone, Copy, PartialEq, Eq, Structural, Debug)]
pub enum ExImCode {
    Unknown,
    Success,
    InvalidMessage,
    InvalidCmd,
    InvalidTarget,
    FailUpdate,
    TransmitFailed,
    SendFailed,
    ReceiveFailed,
}

impl ExImCode {
    /// The numeric wire value of this code.
    pub open spec fn spec_to_i64(self) -> i64 {
        match self {
            ExImCode::Unknown => 0,
            ExImCode::Success => 1,
            ExImCode::InvalidMessage => 2,
            ExImCode::InvalidCmd => 4,
            ExImCode::InvalidTarget => 8,
            ExImCode::FailUpdate => 16,
            ExImCode::TransmitFailed => 32,
            ExImCode::SendFailed => 96,
            ExImCode::ReceiveFailed => 160,
        }
    }

    /// The code a numeric wire value stands for; unassigned values are `Unknown`.
    pub open spec fn spec_from_i64(v: i64) -> ExImCode {
        if v == 1 {
            ExImCode::Success
        } else if v == 2 {
            ExImCode::InvalidMessage
        } else if v == 4 {
            ExImCode::InvalidCmd
        } else if v == 8 {
            ExImCode::InvalidTarget
        } else if v == 16 {
            ExImCode::FailUpdate
        } else if v == 32 {
            ExImCode::TransmitFailed
        } else if v == 96 {
            ExImCode::SendFailed
        } else if v == 160 {
            ExImCode::ReceiveFailed
        } else {
            ExImCode::Unknown
        }
    }

    pub fn to_i64(self) -> (r: i64)
        ensures
            r == self.spec_to_i64(),
    {
        match self {
            ExImCode::Unknown => 0,
            ExImCode::Success => 1,
            ExImCode::InvalidMessage => 2,
            ExImCode::InvalidCmd => 4,
            ExImCode::InvalidTarget => 8,
            ExImCode::FailUpdate => 16,
            ExImCode::TransmitFailed => 32,
            ExImCode::SendFailed => 96,
            ExImCode::ReceiveFailed => 160,
        }
    }

    pub fn from_i64(v: i64) -> (r: ExImCode)
        ensures
            r == ExImCode::spec_from_i64(v),
    {
        if v == 1 {
            ExImCode::Success
        } else if v == 2 {
            ExImCode::InvalidMessage
        } else if v == 4 {
            ExImCode::InvalidCmd
        } else if v == 8 {
            ExImCode::InvalidTarget
        } else if v == 16 {
            ExImCode::FailUpdate
        } else if v == 32 {
            ExImCode::TransmitFailed
        } else if v == 96 {
            ExImCode::SendFailed
        } else if v == 160 {
            ExImCode::ReceiveFailed
        } else {
            ExImCode::Unknown
        }
    }

    /// True exactly when the numeric form carries the shared
    /// transmit-failed bit: a transmission failed in some direction.
    pub fn is_transmit_failure(self) -> (r: bool)
        ensures
            r == (self.spec_to_i64() & TRANSMIT_FAILED_BIT != 0),
    {
        proof {
            lemma_transmit_bit_structure(self);
        }
        match self {
            ExImCode::TransmitFailed => true,
            ExImCode::SendFailed => true,
            ExImCode::ReceiveFailed => true,
            _ => false,
        }
    }

    /// The human-readable name of the code.
    pub fn as_string(&self) -> (r: String)
        ensures
            r@ == self.spec_as_string(),
    {
        let s = match self {
            ExImCode::Success => "ok",
            ExImCode::InvalidMessage => "invalid message",
            ExImCode::InvalidCmd => "invalid cmd",
            ExImCode::InvalidTarget => "invalid target",
            ExImCode::FailUpdate => "fail update",
            ExImCode::TransmitFailed => "fail transmit",
            ExImCode::SendFailed => "fail send",
            ExImCode::ReceiveFailed => "fail receive",
            ExImCode::Unknown => "unknown",
        };
        s.to_owned()
    }

    pub open spec fn spec_as_string(self) -> Seq<char> {
        match self {
            ExImCode::Success => "ok"@,
            ExImCode::InvalidMessage => "invalid message"@,
            ExImCode::InvalidCmd => "invalid cmd"@,
            ExImCode::InvalidTarget => "invalid target"@,
            ExImCode::FailUpdate => "fail update"@,
            ExImCode::TransmitFailed => "fail transmit"@,
            ExImCode::SendFailed => "fail send"@,
            ExImCode::ReceiveFailed => "fail receive"@,
            ExImCode::Unknown => "unknown"@,
        }
    }
}

impl From<i64> for ExImCode {
    fn from(value: i64) -> (r: ExImCode) {
        ExImCode::from_i64(value)
    }
}

impl vstd::std_specs::convert::FromSpecImpl<i64> for ExImCode {
    open spec fn obeys_from_spec() -> bool {
        true
    }

    open spec fn from_spec(v: i64) -> ExImCode {
        ExImCode::spec_from_i64(v)
    }
}

impl From<ExImCode> for i64 {
    fn from(value: ExImCode) -> (r: i64) {
        value.to_i64()
    }
}

impl vstd::std_specs::convert::FromSpecImpl<ExImCode> for i64 {
    open spec fn obeys_from_spec() -> bool {
        true
    }

    open spec fn from_spec(v: ExImCode) -> i64 {
        v.spec_to_i64()
    }
}

/// Every status code survives the trip through its numeric wire form.
pub proof fn lemma_status_code_round_trip(c: ExImCode)
    ensures
        ExImCode::spec_from_i64(c.spec_to_i64()) == c,
{
}

/// Both directional failure codes carry the shared transmit-failed bit,
/// and no validation or storage code does.
pub proof fn lemma_transmit_bit_structure(c: ExImCode)
    ensures
        (c.spec_to_i64() & TRANSMIT_FAILED_BIT != 0) <==> (c == ExImCode::TransmitFailed
            || c == ExImCode::SendFailed || c == ExImCode::ReceiveFailed),
{
    assert(32i64 & 32i64 != 0i64) by (bit_vector);
    assert(96i64 & 32i64 != 0i64) by (bit_vector);
    assert(160i64 & 32i64 != 0i64) by (bit_vector);
    assert(0i64 & 32i64 == 0i64) by (bit_vector);
    assert(1i64 & 32i64 == 0i64) by (bit_vector);
    assert(2i64 & 32i64 == 0i64) by (bit_vector);
    assert(4i64 & 32i64 == 0i64) by (bit_vector);
    assert(8i64 & 32i64 == 0i64) by (bit_vector);
    assert(16i64 & 32i64 == 0i64) by (bit_vector);
}

} // verus!
