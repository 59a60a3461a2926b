use vstd::prelude::*;

verus! {

/// Errors that can occur when sending data via RFCOMM.
#[derive(Debug)]
pub enum RfcommError {
    NoResponse,
    InvalidResponse,
    FailedToOpenChannel,
    FailedToWrite,
    InvalidAddress(String),
}

/// What a transport result code means: -1 to -4 are the failures that they
/// name, any other negative code is an invalid response, and a code of 0 or
/// more is the number of bytes received.
pub open spec fn spec_rfcomm_result(code: i32) -> Result<i32, RfcommError> {
    if code == -1 {
        Err(RfcommError::NoResponse)
    } else if code == -2 {
        Err(RfcommError::InvalidResponse)
    } else if code == -3 {
        Err(RfcommError::FailedToOpenChannel)
    } else if code == -4 {
        Err(RfcommError::FailedToWrite)
    } else if code < 0 {
        Err(RfcommError::InvalidResponse)
    } else {
        Ok(code)
    }
}

/// Check the result of an RFCOMM operation: the data length, or the error
/// that the code stands for.
pub fn check_rfcomm_result(result: i32) -> (r: Result<i32, RfcommError>)
    ensures
        r == spec_rfcomm_result(result),
{
    match result {
        -1 => Err(RfcommError::NoResponse),
        -2 => Err(RfcommError::InvalidResponse),
        -3 => Err(RfcommError::FailedToOpenChannel),
        -4 => Err(RfcommError::FailedToWrite),
        _ => if result < 0 {
            Err(RfcommError::InvalidResponse)
        } else {
            Ok(result)
        },
    }
}

} // verus!

verus! {

/// What a data exchange returned: the transport code, then the first `code`
/// bytes of the response buffer when the code counts received bytes.
pub open spec fn spec_received(code: i32, buf: Seq<u8>) -> Result<Seq<u8>, RfcommError> {
    match spec_rfcomm_result(code) {
        Err(e) => Err(e),
        Ok(n) => if n == 0 {
            Err(RfcommError::NoResponse)
        } else {
            Ok(buf.take(n as int))
        },
    }
}

/// The transport codes that an exchange can return for a response buffer of
/// `len` bytes: a failure code (any negative code) or a byte count that fits
/// the buffer.
pub open spec fn code_fits(code: i32, len: nat) -> bool {
    code <= len
}

/// A connection target: a Bluetooth address that can be handed to the
/// transport (it holds no NUL character).
pub struct RfcommHandle {
    address: String,
}

impl RfcommHandle {
    #[verifier::type_invariant]
    spec fn no_nul(self) -> bool {
        !self.address@.contains('\0')
    }

    /// The address of the device.
    pub closed spec fn address_view(&self) -> Seq<char> {
        self.address@
    }

    pub fn new(address: &str) -> (r: Result<Self, RfcommError>)
        ensures
            match r {
                Ok(h) => h.address_view() == address@ && !address@.contains('\0'),
                Err(e) => address@.contains('\0') && (e matches RfcommError::InvalidAddress(a)
                    && a@ == address@),
            },
    {
        let chars = crate::text::str_chars(address);
        let mut i: usize = 0;
        while i < chars.len()
            invariant
                chars@ == address@,
                i <= chars@.len(),
                forall|k: int| 0 <= k < i ==> chars@[k] != '\0',
            decreases chars.len() - i,
        {
            if chars[i] == '\0' {
                assert(address@[i as int] == '\0');
                return Err(RfcommError::InvalidAddress(address.to_owned()));
            }
            i = i + 1;
        }
        assert(!address@.contains('\0')) by {
            if address@.contains('\0') {
                let k = choose|k: int| 0 <= k < address@.len() && address@[k] == '\0';
                assert(chars@[k] != '\0');
            }
        }
        Ok(RfcommHandle { address: address.to_owned() })
    }

    pub fn address(&self) -> (r: &str)
        ensures
            r@ == self.address_view(),
            !r@.contains('\0'),
    {
        proof {
            use_type_invariant(self);
        }
        self.address.as_str()
    }

    /// The outcome of a send, given the transport code.
    pub fn sent(&self, code: i32) -> (r: Result<(), RfcommError>)
        ensures
            match spec_rfcomm_result(code) {
                Ok(_) => r is Ok,
                Err(e) => r == Err::<(), RfcommError>(e),
            },
    {
        match check_rfcomm_result(code) {
            Ok(_) => Ok(()),
            Err(e) => Err(e),
        }
    }

    /// The response of an exchange, given the transport code and the
    /// response buffer.
    pub fn received(&self, code: i32, buf: &[u8]) -> (r: Result<Vec<u8>, RfcommError>)
        requires
            code_fits(code, buf@.len()),
        ensures
            match spec_received(code, buf@) {
                Ok(data) => r matches Ok(v) && v@ == data,
                Err(e) => r == Err::<Vec<u8>, RfcommError>(e),
            },
    {
        let n = match check_rfcomm_result(code) {
            Ok(n) => n,
            Err(e) => {
                return Err(e);
            },
        };
        if n == 0 {
            return Err(RfcommError::NoResponse);
        }
        let len = n as usize;
        let mut data: Vec<u8> = Vec::new();
        let mut i: usize = 0;
        while i < len
            invariant
                0 < len <= buf@.len(),
                len == n,
                i <= len,
                data@ == buf@.take(i as int),
            decreases len - i,
        {
            data.push(buf[i]);
            i = i + 1;
            assert(data@ =~= buf@.take(i as int));
        }
        Ok(data)
    }
}

} // verus!
