//! What can go wrong between the master and its slaves.

use vstd::prelude::*;

verus! {

/// An error in the exchange of a PDU.
#[derive(PartialEq, Eq, Structural, Debug, Copy, Clone)]
pub enum PduError {
    /// The data in a response does not decode to the expected value.
    Decode,
}

/// A kind of item that a collection of fixed capacity holds.
#[derive(PartialEq, Eq, Structural, Debug, Copy, Clone)]
pub enum Item {
    /// A slave device.
    Slave,
    /// A slave group.
    Group,
}

/// An EtherCAT error.
#[derive(PartialEq, Eq, Debug, Copy, Clone)]
pub enum Error {
    /// The exchange of a PDU failed.
    Pdu(PduError),
    /// A response was processed by another number of slaves than expected.
    WorkingCounter {
        /// The expected working counter.
        expected: u16,
        /// The working counter in the response.
        received: u16,
        /// What the request was for.
        context: &'static str,
    },
    /// A collection is full.
    Capacity(Item),
    /// The process data of a group does not fit the memory set aside for it.
    PdiTooLong {
        /// The length of the memory set aside.
        max_length: usize,
        /// The length of the process data.
        desired_length: usize,
    },
    /// A slave refused a state transition.
    StateTransition,
    /// No response came in time.
    Timeout,
    /// A slave was found that belongs to no group.
    UnknownSlave,
}

/// The data of a response, with the working counter that came back with it.
pub type PduResponse<T> = (T, u16);

/// What a response with the given working counter amounts to when `expected` slaves should have
/// processed it.
pub open spec fn checked<T>(
    response: PduResponse<T>,
    expected: u16,
    context: &'static str,
) -> Result<T, Error> {
    if response.1 == expected {
        Ok(response.0)
    } else {
        Err(Error::WorkingCounter { expected, received: response.1, context })
    }
}

/// Hand out the data of a response if as many slaves as expected have processed it.
pub fn wkc<T>(response: PduResponse<T>, expected: u16, context: &'static str) -> (data: Result<
    T,
    Error,
>)
    ensures
        data == checked(response, expected, context),
{
    if response.1 == expected {
        Ok(response.0)
    } else {
        Err(Error::WorkingCounter { expected, received: response.1, context })
    }
}

/// A response is good exactly if as many slaves as expected have processed it. Then its data is handed
/// out, and otherwise the two numbers are, with what the request was for.
pub proof fn law_response_is_good_with_expected_counter<T>(
    data: T,
    working_counter: u16,
    expected: u16,
    context: &'static str,
    checked_data: Result<T, Error>,
)
    requires
        call_ensures(wkc::<T>, ((data, working_counter), expected, context), checked_data),
    ensures
        checked_data is Ok <==> working_counter == expected,
        checked_data matches Ok(d) ==> d == data,
        checked_data matches Err(e) ==> (e matches Error::WorkingCounter {
            expected: wanted,
            received,
            context: purpose,
        } && wanted == expected && received == working_counter && purpose == context),
        checked((data, working_counter), expected, context) is Ok <==> working_counter == expected,
        checked((data, working_counter), expected, context) matches Ok(d) ==> d == data,
        checked((data, working_counter), expected, context) matches Err(e) ==> (
        e matches Error::WorkingCounter { expected: wanted, received, context: purpose } && wanted
            == expected && received == working_counter && purpose == context),
{
}

} // verus!
