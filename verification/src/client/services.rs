//! The PDUs that the client sends, and what it makes of the responses.

use super::Client;
use crate::command::Command;
use crate::error::{Error, PduError, PduResponse};
use crate::pdu_data::{PduData, PduRead};
use crate::register::RegisterAddress;
use vstd::prelude::*;
use vstd::slice::slice_to_vec;

verus! {

/// A PDU that asks for data.
#[derive(Debug, PartialEq, Eq, Copy, Clone)]
pub struct ReadRequest {
    pub command: Command,
    /// The number of bytes to read.
    pub len: u16,
}

/// A PDU that carries data.
#[derive(Debug, PartialEq, Eq, Clone)]
pub struct WriteRequest {
    pub command: Command,
    /// The bytes to write.
    pub data: Vec<u8>,
}

/// The response that a response with the given bytes amounts to.
pub open spec fn decoded_response<T: PduRead>(
    response: Result<PduResponse<Vec<u8>>, Error>,
) -> Result<PduResponse<T>, Error> {
    match response {
        Ok((data, working_counter)) => match T::decoded(data@) {
            Some(value) => Ok((value, working_counter)),
            None => Err(Error::Pdu(PduError::Decode)),
        },
        Err(e) => Err(e),
    }
}

/// The auto increment address that reaches the slave at the given position: each slave increments
/// the address, and the one that sees 0 answers.
pub open spec fn auto_increment_address(position: u16) -> u16 {
    ((0x1_0000 - position) % 0x1_0000) as u16
}

impl Client {
    /// Send a command that reads a value.
    pub fn read_service<T: PduRead>(&self, command: Command) -> (request: ReadRequest)
        ensures
            request.command == command,
            request.len == T::encoded_len(),
    {
        ReadRequest { command, len: T::len() }
    }

    /// Send a command that writes a value.
    pub fn write_service<T: PduData>(&self, command: Command, value: T) -> (request: WriteRequest)
        ensures
            request.command == command,
            request.data@ == value.encoded(),
    {
        WriteRequest { command, data: value.as_bytes() }
    }

    /// Decode the response to a read or write service.
    ///
    /// A failed exchange stays the error that it is. Data that does not decode is a
    /// [`PduError::Decode`].
    pub fn decode_response<T: PduRead>(
        &self,
        response: Result<PduResponse<Vec<u8>>, Error>,
    ) -> (decoded: Result<PduResponse<T>, Error>)
        ensures
            decoded == decoded_response::<T>(response),
    {
        match response {
            Ok((data, working_counter)) => match T::try_from_slice(data.as_slice()) {
                Some(value) => Ok((value, working_counter)),
                None => Err(Error::Pdu(PduError::Decode)),
            },
            Err(e) => Err(e),
        }
    }

    /// Send a `BRD` (Broadcast Read).
    pub fn brd<T: PduRead>(&self, register: RegisterAddress) -> (request: ReadRequest)
        ensures
            request.command == (Command::Brd { address: 0, register: register.location() }),
            request.len == T::encoded_len(),
    {
        // Address is always zero when sent from master
        self.read_service::<T>(Command::Brd { address: 0, register: u16::from(register) })
    }

    /// Broadcast write.
    pub fn bwr<T: PduData>(&self, register: RegisterAddress, value: T) -> (request: WriteRequest)
        ensures
            request.command == (Command::Bwr { address: 0, register: register.location() }),
            request.data@ == value.encoded(),
    {
        self.write_service(Command::Bwr { address: 0, register: u16::from(register) }, value)
    }

    /// Decode the response to a broadcast write of a `T`. Only the working counter matters.
    pub fn bwr_response<T: PduRead>(
        &self,
        response: Result<PduResponse<Vec<u8>>, Error>,
    ) -> (decoded: Result<PduResponse<()>, Error>)
        ensures
            decoded == match decoded_response::<T>(response) {
                Ok((_, working_counter)) => Ok(((), working_counter)),
                Err(e) => Err(e),
            },
    {
        match self.decode_response::<T>(response) {
            Ok((_, working_counter)) => Ok(((), working_counter)),
            Err(e) => Err(e),
        }
    }

    /// Auto Increment Physical Read.
    pub fn aprd<T: PduRead>(&self, address: u16, register: RegisterAddress) -> (request: ReadRequest)
        ensures
            request.command == (Command::Aprd {
                address: auto_increment_address(address),
                register: register.location(),
            }),
            request.len == T::encoded_len(),
    {
        self.read_service::<T>(
            Command::Aprd { address: 0u16.wrapping_sub(address), register: u16::from(register) },
        )
    }

    /// Auto Increment Physical Write.
    pub fn apwr<T: PduData>(&self, address: u16, register: RegisterAddress, value: T) -> (request:
        WriteRequest)
        ensures
            request.command == (Command::Apwr {
                address: auto_increment_address(address),
                register: register.location(),
            }),
            request.data@ == value.encoded(),
    {
        self.write_service(
            Command::Apwr { address: 0u16.wrapping_sub(address), register: u16::from(register) },
            value,
        )
    }

    /// Configured address read.
    pub fn fprd<T: PduRead>(&self, address: u16, register: RegisterAddress) -> (request: ReadRequest)
        ensures
            request.command == (Command::Fprd { address, register: register.location() }),
            request.len == T::encoded_len(),
    {
        self.read_service::<T>(Command::Fprd { address, register: u16::from(register) })
    }

    /// Configured address write.
    pub fn fpwr<T: PduData>(&self, address: u16, register: u16, value: T) -> (request: WriteRequest)
        ensures
            request.command == (Command::Fpwr { address, register }),
            request.data@ == value.encoded(),
    {
        self.write_service(Command::Fpwr { address, register }, value)
    }

    /// Configured address read, multiple write.
    ///
    /// This can be used to distributed a value from one slave to all others on the network, e.g.
    /// with distributed clocks.
    pub fn frmw<T: PduRead>(&self, address: u16, register: RegisterAddress) -> (request: ReadRequest)
        ensures
            request.command == (Command::Frmw { address, register: register.location() }),
            request.len == T::encoded_len(),
    {
        self.read_service::<T>(Command::Frmw { address, register: u16::from(register) })
    }

    /// Logical write.
    pub fn lwr<T: PduData>(&self, address: u32, value: T) -> (request: WriteRequest)
        ensures
            request.command == (Command::Lwr { address }),
            request.data@ == value.encoded(),
    {
        self.write_service(Command::Lwr { address }, value)
    }

    /// Logical read/write.
    pub fn lrw<T: PduData>(&self, address: u32, value: T) -> (request: WriteRequest)
        ensures
            request.command == (Command::Lrw { address }),
            request.data@ == value.encoded(),
    {
        self.write_service(Command::Lrw { address }, value)
    }

    /// Logical read/write of a whole buffer, which has to fit in one frame.
    pub fn lrw_buf(&self, address: u32, value: &[u8]) -> (request: WriteRequest)
        requires
            value@.len() <= self.max_frame_data(),
        ensures
            request.command == (Command::Lrw { address }),
            request.data@ == value@,
    {
        WriteRequest { command: Command::Lrw { address }, data: slice_to_vec(value) }
    }

    /// Read the response to a logical read/write of a whole buffer back into the buffer.
    ///
    /// Using the given `read_back_len = N`, only the first _N_ bytes will be read back into the
    /// buffer, leaving the rest of the buffer as-transmitted.
    ///
    /// This is useful for only changing input data from slaves. If the passed buffer structure is
    /// e.g. `IIIIOOOO` and a length of `4` is given, only the `I` parts will have data written into
    /// them.
    ///
    /// Returns the working counter. A response of another length than the buffer's is a
    /// [`PduError::Decode`]. On an error the buffer stays as transmitted.
    pub fn lrw_buf_response(
        &self,
        value: &mut [u8],
        read_back_len: usize,
        response: Result<PduResponse<Vec<u8>>, Error>,
    ) -> (working_counter: Result<u16, Error>)
        requires
            response matches Ok((data, _)) && data@.len() == old(value)@.len() ==> read_back_len
                <= old(value)@.len(),
        ensures
            working_counter == match response {
                Ok((data, wkc)) => if data@.len() == old(value)@.len() {
                    Ok(wkc)
                } else {
                    Err(Error::Pdu(PduError::Decode))
                },
                Err(e) => Err(e),
            },
            final(value)@ == match working_counter {
                Ok(_) => response->Ok_0.0@.take(read_back_len as int) + old(value)@.skip(
                    read_back_len as int,
                ),
                Err(_) => old(value)@,
            },
    {
        let (data, working_counter) = match response {
            Ok(response) => response,
            Err(e) => return Err(e),
        };

        if data.len() != value.len() {
            return Err(Error::Pdu(PduError::Decode));
        }
        for i in 0..read_back_len
            invariant
                data@.len() == old(value)@.len(),
                read_back_len <= data@.len(),
                value@ == data@.take(i as int) + old(value)@.skip(i as int),
        {
            value[i] = data[i];
            assert(value@ =~= data@.take(i + 1) + old(value)@.skip(i + 1));
        }

        Ok(working_counter)
    }
}

/// A slave that echoes the bytes of a written value gives the value back to the client.
pub proof fn law_echoed_write_is_read_back<T: PduData>(value: T, echo: Vec<u8>, working_counter: u16)
    requires
        echo@ == value.encoded(),
    ensures
        decoded_response::<T>(Ok((echo, working_counter))) == Ok::<_, Error>(
            (value, working_counter),
        ),
{
    value.law_read_back();
}

/// The slave at the addressed position, having seen one increment by each slave before it, sees
/// address 0. No other position sees it.
pub proof fn law_auto_increment_address_reaches_position(position: u16, other: u16)
    ensures
        (auto_increment_address(position) + other) % 0x1_0000 == 0 <==> other == position,
{
}

/// A broadcast is sent to address 0 and reads or writes the register that was asked for.
pub proof fn law_broadcasts_name_their_register<T: PduData>(
    client: Client,
    register: RegisterAddress,
    value: T,
    read: ReadRequest,
    write: WriteRequest,
)
    requires
        call_ensures(Client::brd::<T>, (&client, register), read),
        call_ensures(Client::bwr::<T>, (&client, register, value), write),
    ensures
        read.command matches Command::Brd { address, register: r } && address == 0 && r
            == register.location(),
        read.len == T::encoded_len(),
        write.command matches Command::Bwr { address, register: r } && address == 0 && r
            == register.location(),
        write.data@ == value.encoded(),
        T::decoded(write.data@) == Some(value),
{
    value.law_read_back();
}

/// A request to a position on the network is sent to the address that is 0 once every slave before
/// that position has added 1 to it.
pub proof fn law_positions_are_counted_up_to_zero<T: PduData>(
    client: Client,
    position: u16,
    register: RegisterAddress,
    value: T,
    read: ReadRequest,
    write: WriteRequest,
)
    requires
        call_ensures(Client::aprd::<T>, (&client, position, register), read),
        call_ensures(Client::apwr::<T>, (&client, position, register, value), write),
    ensures
        read.command matches Command::Aprd { address, register: r } && (address + position)
            % 0x1_0000 == 0 && r == register.location(),
        read.len == T::encoded_len(),
        write.command matches Command::Apwr { address, register: r } && (address + position)
            % 0x1_0000 == 0 && r == register.location(),
        write.data@ == value.encoded(),
        T::decoded(write.data@) == Some(value),
{
    value.law_read_back();
}

/// A request to a configured address is sent to that address, with the register and the value that
/// were asked for.
pub proof fn law_configured_addresses_are_kept<T: PduData>(
    client: Client,
    station: u16,
    register: RegisterAddress,
    location: u16,
    value: T,
    read: ReadRequest,
    write: WriteRequest,
    distributed: ReadRequest,
)
    requires
        call_ensures(Client::fprd::<T>, (&client, station, register), read),
        call_ensures(Client::fpwr::<T>, (&client, station, location, value), write),
        call_ensures(Client::frmw::<T>, (&client, station, register), distributed),
    ensures
        read.command matches Command::Fprd { address, register: r } && address == station && r
            == register.location(),
        read.len == T::encoded_len(),
        write.command matches Command::Fpwr { address, register: r } && address == station && r
            == location,
        write.data@ == value.encoded(),
        T::decoded(write.data@) == Some(value),
        distributed.command matches Command::Frmw { address, register: r } && address == station && r
            == register.location(),
        distributed.len == T::encoded_len(),
{
    value.law_read_back();
}

/// A request to a logical address is sent to that address, with the value or the bytes that were asked
/// for.
pub proof fn law_logical_addresses_are_kept<T: PduData>(
    client: Client,
    logical: u32,
    value: T,
    buffer: &[u8],
    write: WriteRequest,
    exchange: WriteRequest,
    whole: WriteRequest,
)
    requires
        call_ensures(Client::lwr::<T>, (&client, logical, value), write),
        call_ensures(Client::lrw::<T>, (&client, logical, value), exchange),
        call_ensures(Client::lrw_buf, (&client, logical, buffer), whole),
    ensures
        write.command matches Command::Lwr { address } && address == logical,
        exchange.command matches Command::Lrw { address } && address == logical,
        whole.command matches Command::Lrw { address } && address == logical,
        write.data@ == value.encoded(),
        exchange.data@ == value.encoded(),
        T::decoded(write.data@) == Some(value),
        T::decoded(exchange.data@) == Some(value),
        whole.data@.len() == buffer@.len(),
        forall|k: int| 0 <= k < buffer@.len() ==> #[trigger] whole.data@[k] == buffer@[k],
{
    value.law_read_back();
}

/// The services send the command that they are given. A read asks for as many bytes as the value has,
/// and a write carries bytes from which the value can be read back.
pub proof fn law_services_send_their_command<T: PduData>(
    client: Client,
    command: Command,
    value: T,
    read: ReadRequest,
    write: WriteRequest,
)
    requires
        call_ensures(Client::read_service::<T>, (&client, command), read),
        call_ensures(Client::write_service::<T>, (&client, command, value), write),
    ensures
        read.command == command,
        write.command == command,
        read.len == write.data@.len(),
        T::decoded(write.data@) == Some(value),
{
    value.law_read_back();
}

/// A response is decoded exactly if the exchange went well and its bytes encode a value. Its working
/// counter is kept. An exchange that failed keeps its error, and other bytes are a decoding error.
pub proof fn law_good_responses_are_decoded<T: PduRead>(
    client: Client,
    response: Result<PduResponse<Vec<u8>>, Error>,
    decoded: Result<PduResponse<T>, Error>,
    written: Result<PduResponse<()>, Error>,
)
    requires
        call_ensures(Client::decode_response::<T>, (&client, response), decoded),
        call_ensures(Client::bwr_response::<T>, (&client, response), written),
    ensures
        decoded is Ok <==> response is Ok && T::decoded(response->Ok_0.0@) is Some,
        decoded matches Ok((value, wkc)) ==> wkc == response->Ok_0.1 && T::decoded(
            response->Ok_0.0@,
        ) == Some(value),
        decoded matches Err(e) ==> e == if response is Err {
            response->Err_0
        } else {
            Error::Pdu(PduError::Decode)
        },
        written is Ok <==> decoded is Ok,
        written matches Ok((_, wkc)) ==> wkc == response->Ok_0.1,
        written matches Err(e) ==> e == decoded->Err_0,
{
}

/// Of a buffer that was sent and came back, exactly the first bytes are replaced by those that came
/// back, as many as were asked for. The others stay as they were sent. After an error all of them do.
pub proof fn law_only_inputs_are_read_back(
    client: Client,
    value: &mut [u8],
    read_back_len: usize,
    response: Result<PduResponse<Vec<u8>>, Error>,
    working_counter: Result<u16, Error>,
)
    requires
        call_ensures(
            Client::lrw_buf_response,
            (&client, value, read_back_len, response),
            working_counter,
        ),
        response matches Ok((data, _)) && data@.len() == old(value)@.len() ==> read_back_len
            <= old(value)@.len(),
    ensures
        final(value)@.len() == old(value)@.len(),
        working_counter is Ok <==> response is Ok && response->Ok_0.0@.len() == old(value)@.len(),
        working_counter matches Ok(wkc) ==> wkc == response->Ok_0.1,
        working_counter matches Err(e) ==> e == if response is Err {
            response->Err_0
        } else {
            Error::Pdu(PduError::Decode)
        },
        forall|k: int|
            0 <= k < old(value)@.len() ==> #[trigger] final(value)@[k] == if working_counter is Ok && k
                < read_back_len {
                response->Ok_0.0@[k]
            } else {
                old(value)@[k]
            },
{
}

} // verus!
