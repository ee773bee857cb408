//! The protocol dispatcher: one decoded request becomes one engine call and
//! its response. Decoding and encoding frames is the transport's business.

use vstd::prelude::*;
use crate::sim::{
    read_bool_range, read_register_range, written_bool, written_bools, written_register,
    written_registers, SimState, SimStateView,
};

verus! {

/// A decoded request. `Unsupported` stands for every function code that the
/// device does not serve.
#[derive(Debug, Clone, PartialEq, Eq)]
pub enum Request {
    ReadCoils(u16, u16),
    ReadDiscreteInputs(u16, u16),
    ReadHoldingRegisters(u16, u16),
    ReadInputRegisters(u16, u16),
    WriteSingleCoil(u16, bool),
    WriteSingleRegister(u16, u16),
    WriteMultipleCoils(u16, Vec<bool>),
    WriteMultipleRegisters(u16, Vec<u16>),
    Unsupported,
}

/// The response to a served request.
#[derive(Debug, Clone, PartialEq, Eq)]
pub enum Response {
    ReadCoils(Vec<bool>),
    ReadDiscreteInputs(Vec<bool>),
    ReadHoldingRegisters(Vec<u16>),
    ReadInputRegisters(Vec<u16>),
    WriteSingleCoil(u16, bool),
    WriteSingleRegister(u16, u16),
    WriteMultipleCoils(u16, u16),
    WriteMultipleRegisters(u16, u16),
}

#[derive(Debug, Clone, Copy, PartialEq, Eq, Structural)]
pub enum DispatchError {
    UnsupportedRequest,
}

pub enum RequestView {
    ReadCoils(u16, u16),
    ReadDiscreteInputs(u16, u16),
    ReadHoldingRegisters(u16, u16),
    ReadInputRegisters(u16, u16),
    WriteSingleCoil(u16, bool),
    WriteSingleRegister(u16, u16),
    WriteMultipleCoils(u16, Seq<bool>),
    WriteMultipleRegisters(u16, Seq<u16>),
    Unsupported,
}

pub enum ResponseView {
    ReadCoils(Seq<bool>),
    ReadDiscreteInputs(Seq<bool>),
    ReadHoldingRegisters(Seq<u16>),
    ReadInputRegisters(Seq<u16>),
    WriteSingleCoil(u16, bool),
    WriteSingleRegister(u16, u16),
    WriteMultipleCoils(u16, u16),
    WriteMultipleRegisters(u16, u16),
}

impl View for Request {
    type V = RequestView;

    open spec fn view(&self) -> RequestView {
        match *self {
            Request::ReadCoils(a, c) => RequestView::ReadCoils(a, c),
            Request::ReadDiscreteInputs(a, c) => RequestView::ReadDiscreteInputs(a, c),
            Request::ReadHoldingRegisters(a, c) => RequestView::ReadHoldingRegisters(a, c),
            Request::ReadInputRegisters(a, c) => RequestView::ReadInputRegisters(a, c),
            Request::WriteSingleCoil(a, v) => RequestView::WriteSingleCoil(a, v),
            Request::WriteSingleRegister(a, v) => RequestView::WriteSingleRegister(a, v),
            Request::WriteMultipleCoils(a, vs) => RequestView::WriteMultipleCoils(a, vs@),
            Request::WriteMultipleRegisters(a, vs) => RequestView::WriteMultipleRegisters(a, vs@),
            Request::Unsupported => RequestView::Unsupported,
        }
    }
}

impl View for Response {
    type V = ResponseView;

    open spec fn view(&self) -> ResponseView {
        match *self {
            Response::ReadCoils(vs) => ResponseView::ReadCoils(vs@),
            Response::ReadDiscreteInputs(vs) => ResponseView::ReadDiscreteInputs(vs@),
            Response::ReadHoldingRegisters(vs) => ResponseView::ReadHoldingRegisters(vs@),
            Response::ReadInputRegisters(vs) => ResponseView::ReadInputRegisters(vs@),
            Response::WriteSingleCoil(a, v) => ResponseView::WriteSingleCoil(a, v),
            Response::WriteSingleRegister(a, v) => ResponseView::WriteSingleRegister(a, v),
            Response::WriteMultipleCoils(a, n) => ResponseView::WriteMultipleCoils(a, n),
            Response::WriteMultipleRegisters(a, n) => ResponseView::WriteMultipleRegisters(a, n),
        }
    }
}

/// The count that a range write echoes: the number of values, in 16 bits.
pub open spec fn echoed_count(len: nat) -> u16 {
    (len % 0x1_0000) as u16
}

/// The engine after a request that arrives at the clock reading `now_ms`.
/// Only the four writes change it, and each only its own address space.
pub open spec fn state_after(state: SimStateView, request: RequestView, now_ms: u64) -> SimStateView {
    match request {
        RequestView::WriteSingleCoil(a, v) => SimStateView {
            coils: written_bool(state.coils, a, v, state.global_update_ms, now_ms),
            ..state
        },
        RequestView::WriteSingleRegister(a, v) => SimStateView {
            holding_registers: written_register(
                state.holding_registers,
                a,
                v,
                state.global_update_ms,
                now_ms,
            ),
            ..state
        },
        RequestView::WriteMultipleCoils(a, vs) => SimStateView {
            coils: written_bools(state.coils, a, vs, state.global_update_ms, now_ms),
            ..state
        },
        RequestView::WriteMultipleRegisters(a, vs) => SimStateView {
            holding_registers: written_registers(
                state.holding_registers,
                a,
                vs,
                state.global_update_ms,
                now_ms,
            ),
            ..state
        },
        _ => state,
    }
}

/// The answer to a request: the values read, an echo of what was written,
/// or the failure for a request that is not served.
pub open spec fn answer_to(state: SimStateView, request: RequestView) -> Result<
    ResponseView,
    DispatchError,
> {
    match request {
        RequestView::ReadCoils(a, c) => Ok(
            ResponseView::ReadCoils(read_bool_range(state.coils, a, c as nat)),
        ),
        RequestView::ReadDiscreteInputs(a, c) => Ok(
            ResponseView::ReadDiscreteInputs(read_bool_range(state.discrete_inputs, a, c as nat)),
        ),
        RequestView::ReadHoldingRegisters(a, c) => Ok(
            ResponseView::ReadHoldingRegisters(
                read_register_range(state.holding_registers, a, c as nat),
            ),
        ),
        RequestView::ReadInputRegisters(a, c) => Ok(
            ResponseView::ReadInputRegisters(
                read_register_range(state.input_registers, a, c as nat),
            ),
        ),
        RequestView::WriteSingleCoil(a, v) => Ok(ResponseView::WriteSingleCoil(a, v)),
        RequestView::WriteSingleRegister(a, v) => Ok(ResponseView::WriteSingleRegister(a, v)),
        RequestView::WriteMultipleCoils(a, vs) => Ok(
            ResponseView::WriteMultipleCoils(a, echoed_count(vs.len())),
        ),
        RequestView::WriteMultipleRegisters(a, vs) => Ok(
            ResponseView::WriteMultipleRegisters(a, echoed_count(vs.len())),
        ),
        RequestView::Unsupported => Err(DispatchError::UnsupportedRequest),
    }
}

/// The view of a dispatch result.
pub open spec fn result_view(result: Result<Response, DispatchError>) -> Result<
    ResponseView,
    DispatchError,
> {
    match result {
        Ok(response) => Ok(response@),
        Err(error) => Err(error),
    }
}

fn count_of(len: usize) -> (count: u16)
    ensures
        count == echoed_count(len as nat),
{
    (len % 0x1_0000) as u16
}

/// Serves one request that arrives at the clock reading `now_ms`, with one
/// engine call.
pub fn dispatch(state: &mut SimState, request: Request, now_ms: u64) -> (result: Result<
    Response,
    DispatchError,
>)
    ensures
        result_view(result) == answer_to(old(state)@, request@),
        final(state)@ == state_after(old(state)@, request@, now_ms),
{
    match request {
        Request::ReadCoils(address, count) => Ok(
            Response::ReadCoils(state.read_coils(address, count)),
        ),
        Request::ReadDiscreteInputs(address, count) => Ok(
            Response::ReadDiscreteInputs(state.read_discrete_inputs(address, count)),
        ),
        Request::ReadHoldingRegisters(address, count) => Ok(
            Response::ReadHoldingRegisters(state.read_holding_registers(address, count)),
        ),
        Request::ReadInputRegisters(address, count) => Ok(
            Response::ReadInputRegisters(state.read_input_registers(address, count)),
        ),
        Request::WriteSingleCoil(address, value) => {
            state.write_single_coil(address, value, now_ms);
            Ok(Response::WriteSingleCoil(address, value))
        },
        Request::WriteSingleRegister(address, value) => {
            state.write_single_register(address, value, now_ms);
            Ok(Response::WriteSingleRegister(address, value))
        },
        Request::WriteMultipleCoils(address, values) => {
            state.write_multiple_coils(address, values.as_slice(), now_ms);
            Ok(Response::WriteMultipleCoils(address, count_of(values.len())))
        },
        Request::WriteMultipleRegisters(address, values) => {
            state.write_multiple_registers(address, values.as_slice(), now_ms);
            Ok(Response::WriteMultipleRegisters(address, count_of(values.len())))
        },
        Request::Unsupported => Err(DispatchError::UnsupportedRequest),
    }
}

impl DispatchError {
    /// The condition in words.
    pub fn message(&self) -> (text: String)
        ensures
            text@ == "unsupported request"@,
    {
        String::from_str("unsupported request")
    }
}

} // verus!
