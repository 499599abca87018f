//! The requests of a client, and how their payloads are read.
//!
//! A payload is read field by field from its first byte on, and it must end
//! where the last field ends. Numbers are big-endian; a text is its UTF-8
//! bytes followed by a zero byte.

use vstd::prelude::*;
use vstd::utf8::{decode_utf8, valid_utf8};
use crate::bytes::be_value;
use crate::text::text_from_utf8;

verus! {

pub const QUERY: u8 = 81;

pub const BIND: u8 = 66;

pub const CLOSE: u8 = 67;

pub const DESCRIBE: u8 = 68;

pub const EXECUTE: u8 = 69;

pub const FLUSH: u8 = 72;

pub const PARSE: u8 = 80;

pub const SYNC: u8 = 83;

pub const TERMINATE: u8 = 88;

/// The byte that names a portal in `Close` and `Describe`.
pub const PORTAL: u8 = 80;

/// The byte that names a statement in `Close` and `Describe`.
pub const STATEMENT: u8 = 83;

#[derive(Debug, PartialEq)]
pub enum Request {
    Query { sql: String },
    Bind {
        portal_name: String,
        statement_name: String,
        query_param_formats: Vec<i16>,
        query_params: Vec<Option<Vec<u8>>>,
        result_value_formats: Vec<i16>,
    },
    ClosePortal { name: String },
    CloseStatement { name: String },
    DescribePortal { name: String },
    DescribeStatement { name: String },
    Execute { portal_name: String, max_rows: i32 },
    Flush,
    Parse { statement_name: String, sql: String, param_types: Vec<u32> },
    Sync,
    Terminate,
}

/// What a `Request` holds, as plain values.
pub enum RequestModel {
    Query { sql: Seq<char> },
    Bind {
        portal_name: Seq<char>,
        statement_name: Seq<char>,
        query_param_formats: Seq<i16>,
        query_params: Seq<Option<Seq<u8>>>,
        result_value_formats: Seq<i16>,
    },
    ClosePortal { name: Seq<char> },
    CloseStatement { name: Seq<char> },
    DescribePortal { name: Seq<char> },
    DescribeStatement { name: Seq<char> },
    Execute { portal_name: Seq<char>, max_rows: i32 },
    Flush,
    Parse { statement_name: Seq<char>, sql: Seq<char>, param_types: Seq<u32> },
    Sync,
    Terminate,
}

/// The parameters, each as its bytes.
pub open spec fn param_models(params: Seq<Option<Vec<u8>>>) -> Seq<Option<Seq<u8>>> {
    params.map_values(
        |param: Option<Vec<u8>>|
            match param {
                Some(bytes) => Some(bytes@),
                None => None,
            },
    )
}

impl View for Request {
    type V = RequestModel;

    open spec fn view(&self) -> RequestModel {
        match self {
            Request::Query { sql } => RequestModel::Query { sql: sql@ },
            Request::Bind {
                portal_name,
                statement_name,
                query_param_formats,
                query_params,
                result_value_formats,
            } => RequestModel::Bind {
                portal_name: portal_name@,
                statement_name: statement_name@,
                query_param_formats: query_param_formats@,
                query_params: param_models(query_params@),
                result_value_formats: result_value_formats@,
            },
            Request::ClosePortal { name } => RequestModel::ClosePortal { name: name@ },
            Request::CloseStatement { name } => RequestModel::CloseStatement { name: name@ },
            Request::DescribePortal { name } => RequestModel::DescribePortal { name: name@ },
            Request::DescribeStatement { name } => RequestModel::DescribeStatement { name: name@ },
            Request::Execute { portal_name, max_rows } => RequestModel::Execute {
                portal_name: portal_name@,
                max_rows: *max_rows,
            },
            Request::Flush => RequestModel::Flush,
            Request::Parse { statement_name, sql, param_types } => RequestModel::Parse {
                statement_name: statement_name@,
                sql: sql@,
                param_types: param_types@,
            },
            Request::Sync => RequestModel::Sync,
            Request::Terminate => RequestModel::Terminate,
        }
    }
}

/// Why a message of the client is no request.
#[derive(Debug, Clone, Copy, PartialEq, Eq, Structural)]
pub enum RequestError {
    /// The tag names no request that the server knows.
    UnknownTag,
    /// The payload is not laid out as the tag requires.
    Malformed,
}

/// The position of the first zero byte at or after `from`, or the length
/// of `bytes` if there is none.
pub open spec fn zero_from(bytes: Seq<u8>, from: int) -> int
    decreases bytes.len() - from,
{
    if from < 0 || from >= bytes.len() {
        bytes.len() as int
    } else if bytes[from] == 0 {
        from
    } else {
        zero_from(bytes, from + 1)
    }
}

/// The text that starts at `from`, and the position behind its zero byte.
pub open spec fn text_at(bytes: Seq<u8>, from: int) -> Option<(Seq<char>, int)> {
    let end = zero_from(bytes, from);
    if 0 <= from <= end < bytes.len() && valid_utf8(bytes.subrange(from, end)) {
        Some((decode_utf8(bytes.subrange(from, end)), end + 1))
    } else {
        None
    }
}

/// The unsigned number in the `width` bytes that start at `from`.
pub open spec fn number_at(bytes: Seq<u8>, from: int, width: int) -> Option<nat> {
    if 0 <= from && from + width <= bytes.len() {
        Some(be_value(bytes.subrange(from, from + width)))
    } else {
        None
    }
}

/// The number that the 16 bits of `value` stand for in two's complement.
pub open spec fn signed_16(value: nat) -> i16 {
    if value >= 0x8000 {
        (value - 0x1_0000) as i16
    } else {
        value as i16
    }
}

/// The number that the 32 bits of `value` stand for in two's complement.
pub open spec fn signed_32(value: nat) -> i32 {
    if value >= 0x8000_0000 {
        (value - 0x1_0000_0000) as i32
    } else {
        value as i32
    }
}

/// The signed 16-bit number at `from`.
pub open spec fn i16_at(bytes: Seq<u8>, from: int) -> Option<i16> {
    match number_at(bytes, from, 2) {
        Some(value) => Some(signed_16(value)),
        None => None,
    }
}

/// The signed 32-bit number at `from`.
pub open spec fn i32_at(bytes: Seq<u8>, from: int) -> Option<i32> {
    match number_at(bytes, from, 4) {
        Some(value) => Some(signed_32(value)),
        None => None,
    }
}

/// `count` signed 16-bit numbers from `from` on, and the position behind
/// them.
pub open spec fn i16s_at(bytes: Seq<u8>, from: int, count: nat) -> Option<(Seq<i16>, int)>
    decreases count,
{
    if count == 0 {
        Some((Seq::empty(), from))
    } else {
        match i16s_at(bytes, from, (count - 1) as nat) {
            Some((numbers, next)) => match i16_at(bytes, next) {
                Some(number) => Some((numbers.push(number), next + 2)),
                None => None,
            },
            None => None,
        }
    }
}

/// `count` unsigned 32-bit numbers from `from` on, and the position behind
/// them.
pub open spec fn u32s_at(bytes: Seq<u8>, from: int, count: nat) -> Option<(Seq<u32>, int)>
    decreases count,
{
    if count == 0 {
        Some((Seq::empty(), from))
    } else {
        match u32s_at(bytes, from, (count - 1) as nat) {
            Some((numbers, next)) => match number_at(bytes, next, 4) {
                Some(number) => Some((numbers.push(number as u32), next + 4)),
                None => None,
            },
            None => None,
        }
    }
}

/// The parameter at `from` and the position behind it: a length and as
/// many bytes, or the length `-1`, which stands for a null parameter.
pub open spec fn param_at(bytes: Seq<u8>, from: int) -> Option<(Option<Seq<u8>>, int)> {
    match i32_at(bytes, from) {
        Some(len) => if len == -1 {
            Some((None, from + 4))
        } else if len >= 0 && from + 4 + len <= bytes.len() {
            Some((Some(bytes.subrange(from + 4, from + 4 + len)), from + 4 + len))
        } else {
            None
        },
        None => None,
    }
}

/// `count` parameters from `from` on, and the position behind them.
pub open spec fn params_at(bytes: Seq<u8>, from: int, count: nat) -> Option<
    (Seq<Option<Seq<u8>>>, int),
>
    decreases count,
{
    if count == 0 {
        Some((Seq::empty(), from))
    } else {
        match params_at(bytes, from, (count - 1) as nat) {
            Some((params, next)) => match param_at(bytes, next) {
                Some((param, after)) => Some((params.push(param), after)),
                None => None,
            },
            None => None,
        }
    }
}

/// A count of fields, then as many signed 16-bit numbers.
pub open spec fn counted_i16s_at(bytes: Seq<u8>, from: int) -> Option<(Seq<i16>, int)> {
    match i16_at(bytes, from) {
        Some(count) => if count >= 0 {
            i16s_at(bytes, from + 2, count as nat)
        } else {
            None
        },
        None => None,
    }
}

/// The request that a `Bind` payload holds.
pub open spec fn bind_of(payload: Seq<u8>) -> Option<RequestModel> {
    match text_at(payload, 0) {
        Some((portal_name, at_statement)) => match text_at(payload, at_statement) {
            Some((statement_name, at_formats)) => match counted_i16s_at(payload, at_formats) {
                Some((query_param_formats, at_count)) => match i16_at(payload, at_count) {
                    Some(count) => if count >= 0 {
                        match params_at(payload, at_count + 2, count as nat) {
                            Some((query_params, at_results)) => match counted_i16s_at(
                                payload,
                                at_results,
                            ) {
                                Some((result_value_formats, end)) => if end == payload.len() {
                                    Some(
                                        RequestModel::Bind {
                                            portal_name,
                                            statement_name,
                                            query_param_formats,
                                            query_params,
                                            result_value_formats,
                                        },
                                    )
                                } else {
                                    None
                                },
                                None => None,
                            },
                            None => None,
                        }
                    } else {
                        None
                    },
                    None => None,
                },
                None => None,
            },
            None => None,
        },
        None => None,
    }
}

/// The request that a `Parse` payload holds.
pub open spec fn parse_of(payload: Seq<u8>) -> Option<RequestModel> {
    match text_at(payload, 0) {
        Some((statement_name, at_sql)) => match text_at(payload, at_sql) {
            Some((sql, at_count)) => match i16_at(payload, at_count) {
                Some(count) => if count >= 0 {
                    match u32s_at(payload, at_count + 2, count as nat) {
                        Some((param_types, end)) => if end == payload.len() {
                            Some(RequestModel::Parse { statement_name, sql, param_types })
                        } else {
                            None
                        },
                        None => None,
                    }
                } else {
                    None
                },
                None => None,
            },
            None => None,
        },
        None => None,
    }
}

/// The request that an `Execute` payload holds.
pub open spec fn execute_of(payload: Seq<u8>) -> Option<RequestModel> {
    match text_at(payload, 0) {
        Some((portal_name, at_rows)) => match i32_at(payload, at_rows) {
            Some(max_rows) => if at_rows + 4 == payload.len() {
                Some(RequestModel::Execute { portal_name, max_rows })
            } else {
                None
            },
            None => None,
        },
        None => None,
    }
}

/// The name that follows the first byte of a `Close` or `Describe`
/// payload, if the payload ends with the name.
pub open spec fn target_name_of(payload: Seq<u8>) -> Option<Seq<char>> {
    match text_at(payload, 1) {
        Some((name, end)) => if end == payload.len() {
            Some(name)
        } else {
            None
        },
        None => None,
    }
}

/// The request that a message with the given tag and payload is.
pub open spec fn request_of(tag: u8, payload: Seq<u8>) -> Result<RequestModel, RequestError> {
    if tag == QUERY {
        match text_at(payload, 0) {
            Some((sql, end)) => if end == payload.len() {
                Ok(RequestModel::Query { sql })
            } else {
                Err(RequestError::Malformed)
            },
            None => Err(RequestError::Malformed),
        }
    } else if tag == BIND {
        match bind_of(payload) {
            Some(request) => Ok(request),
            None => Err(RequestError::Malformed),
        }
    } else if tag == CLOSE {
        match target_name_of(payload) {
            Some(name) => if payload[0] == PORTAL {
                Ok(RequestModel::ClosePortal { name })
            } else if payload[0] == STATEMENT {
                Ok(RequestModel::CloseStatement { name })
            } else {
                Err(RequestError::Malformed)
            },
            None => Err(RequestError::Malformed),
        }
    } else if tag == DESCRIBE {
        match target_name_of(payload) {
            Some(name) => if payload[0] == PORTAL {
                Ok(RequestModel::DescribePortal { name })
            } else if payload[0] == STATEMENT {
                Ok(RequestModel::DescribeStatement { name })
            } else {
                Err(RequestError::Malformed)
            },
            None => Err(RequestError::Malformed),
        }
    } else if tag == EXECUTE {
        match execute_of(payload) {
            Some(request) => Ok(request),
            None => Err(RequestError::Malformed),
        }
    } else if tag == FLUSH {
        if payload.len() == 0 {
            Ok(RequestModel::Flush)
        } else {
            Err(RequestError::Malformed)
        }
    } else if tag == PARSE {
        match parse_of(payload) {
            Some(request) => Ok(request),
            None => Err(RequestError::Malformed),
        }
    } else if tag == SYNC {
        if payload.len() == 0 {
            Ok(RequestModel::Sync)
        } else {
            Err(RequestError::Malformed)
        }
    } else if tag == TERMINATE {
        if payload.len() == 0 {
            Ok(RequestModel::Terminate)
        } else {
            Err(RequestError::Malformed)
        }
    } else {
        Err(RequestError::UnknownTag)
    }
}

/// A copy of the bytes from `from` up to `end`.
pub fn copy_range(bytes: &[u8], from: usize, end: usize) -> (copy: Vec<u8>)
    requires
        from <= end <= bytes@.len(),
    ensures
        copy@ == bytes@.subrange(from as int, end as int),
{
    let mut copy: Vec<u8> = Vec::new();
    let mut i: usize = from;
    while i < end
        invariant
            from <= i <= end <= bytes@.len(),
            copy@ == bytes@.subrange(from as int, i as int),
        decreases end - i,
    {
        copy.push(bytes[i]);
        assert(copy@ =~= bytes@.subrange(from as int, i + 1));
        i += 1;
    }
    copy
}

fn read_text(bytes: &[u8], from: usize) -> (text: Option<(String, usize)>)
    requires
        from <= bytes@.len(),
    ensures
        match text {
            Some((text, next)) => text_at(bytes@, from as int) == Some((text@, next as int))
                && next <= bytes@.len(),
            None => text_at(bytes@, from as int) is None,
        },
{
    let mut end: usize = from;
    while end < bytes.len() && bytes[end] != 0
        invariant
            from <= end <= bytes@.len(),
            zero_from(bytes@, from as int) == zero_from(bytes@, end as int),
        decreases bytes@.len() - end,
    {
        end += 1;
    }
    if end == bytes.len() {
        return None;
    }
    match text_from_utf8(copy_range(bytes, from, end)) {
        Some(text) => Some((text, end + 1)),
        None => None,
    }
}

fn read_number(bytes: &[u8], from: usize, width: usize) -> (number: Option<u64>)
    requires
        from <= bytes@.len(),
        width <= 8,
    ensures
        number matches Some(value) ==> number_at(bytes@, from as int, width as int) == Some(
            value as nat,
        ) && value < crate::bytes::span(width as nat),
        number is None ==> number_at(bytes@, from as int, width as int) is None,
        number is Some ==> from + width <= bytes@.len() <= usize::MAX,
{
    if width > bytes.len() - from {
        return None;
    }
    let field = copy_range(bytes, from, from + width);
    proof {
        crate::bytes::lemma_be_bytes_of_value(field@);
    }
    Some(crate::bytes::be_u64(field.as_slice()))
}

fn read_i16(bytes: &[u8], from: usize) -> (number: Option<i16>)
    requires
        from <= bytes@.len(),
    ensures
        number == i16_at(bytes@, from as int),
        number is Some ==> from + 2 <= bytes@.len() <= usize::MAX,
{
    match read_number(bytes, from, 2) {
        Some(value) => {
            proof {
                crate::bytes::lemma_span_bound(2);
            }
            if value >= 0x8000 {
                Some((value as i64 - 0x1_0000) as i16)
            } else {
                Some(value as i16)
            }
        },
        None => None,
    }
}

fn read_i32(bytes: &[u8], from: usize) -> (number: Option<i32>)
    requires
        from <= bytes@.len(),
    ensures
        number == i32_at(bytes@, from as int),
        number is Some ==> from + 4 <= bytes@.len() <= usize::MAX,
{
    match read_number(bytes, from, 4) {
        Some(value) => {
            proof {
                crate::bytes::lemma_span_bound(4);
            }
            if value >= 0x8000_0000 {
                Some((value as i64 - 0x1_0000_0000) as i32)
            } else {
                Some(value as i32)
            }
        },
        None => None,
    }
}

fn read_i16s(bytes: &[u8], from: usize, count: usize) -> (numbers: Option<(Vec<i16>, usize)>)
    requires
        from <= bytes@.len(),
    ensures
        match numbers {
            Some((numbers, next)) => i16s_at(bytes@, from as int, count as nat) == Some(
                (numbers@, next as int),
            ) && next <= bytes@.len(),
            None => i16s_at(bytes@, from as int, count as nat) is None,
        },
{
    let mut numbers: Vec<i16> = Vec::new();
    let mut next: usize = from;
    let mut i: usize = 0;
    while i < count
        invariant
            i <= count,
            next <= bytes@.len(),
            i16s_at(bytes@, from as int, i as nat) == Some((numbers@, next as int)),
        decreases count - i,
    {
        match read_i16(bytes, next) {
            Some(number) => {
                numbers.push(number);
                next += 2;
            },
            None => {
                proof {
                    lemma_i16s_fail(bytes@, from as int, (i + 1) as nat, count as nat);
                }
                return None;
            },
        }
        i += 1;
    }
    Some((numbers, next))
}

/// Numbers that cannot be read up to some count cannot be read beyond it.
proof fn lemma_i16s_fail(bytes: Seq<u8>, from: int, failed: nat, count: nat)
    requires
        i16s_at(bytes, from, failed) is None,
        failed <= count,
    ensures
        i16s_at(bytes, from, count) is None,
    decreases count,
{
    if failed < count {
        lemma_i16s_fail(bytes, from, failed, (count - 1) as nat);
    }
}

fn read_u32s(bytes: &[u8], from: usize, count: usize) -> (numbers: Option<(Vec<u32>, usize)>)
    requires
        from <= bytes@.len(),
    ensures
        match numbers {
            Some((numbers, next)) => u32s_at(bytes@, from as int, count as nat) == Some(
                (numbers@, next as int),
            ) && next <= bytes@.len(),
            None => u32s_at(bytes@, from as int, count as nat) is None,
        },
{
    let mut numbers: Vec<u32> = Vec::new();
    let mut next: usize = from;
    let mut i: usize = 0;
    while i < count
        invariant
            i <= count,
            next <= bytes@.len(),
            u32s_at(bytes@, from as int, i as nat) == Some((numbers@, next as int)),
        decreases count - i,
    {
        match read_number(bytes, next, 4) {
            Some(number) => {
                proof {
                    crate::bytes::lemma_span_bound(4);
                }
                numbers.push(number as u32);
                next += 4;
            },
            None => {
                proof {
                    lemma_u32s_fail(bytes@, from as int, (i + 1) as nat, count as nat);
                }
                return None;
            },
        }
        i += 1;
    }
    Some((numbers, next))
}

proof fn lemma_u32s_fail(bytes: Seq<u8>, from: int, failed: nat, count: nat)
    requires
        u32s_at(bytes, from, failed) is None,
        failed <= count,
    ensures
        u32s_at(bytes, from, count) is None,
    decreases count,
{
    if failed < count {
        lemma_u32s_fail(bytes, from, failed, (count - 1) as nat);
    }
}

fn read_params(bytes: &[u8], from: usize, count: usize) -> (params: Option<
    (Vec<Option<Vec<u8>>>, usize),
>)
    requires
        from <= bytes@.len(),
    ensures
        match params {
            Some((params, next)) => params_at(bytes@, from as int, count as nat) == Some(
                (param_models(params@), next as int),
            ) && next <= bytes@.len(),
            None => params_at(bytes@, from as int, count as nat) is None,
        },
{
    let mut params: Vec<Option<Vec<u8>>> = Vec::new();
    let mut next: usize = from;
    let mut i: usize = 0;
    while i < count
        invariant
            i <= count,
            next <= bytes@.len(),
            params_at(bytes@, from as int, i as nat) == Some((param_models(params@), next as int)),
        decreases count - i,
    {
        let ghost before = params@;
        let len = match read_i32(bytes, next) {
            Some(len) => len,
            None => {
                proof {
                    lemma_params_fail(bytes@, from as int, (i + 1) as nat, count as nat);
                }
                return None;
            },
        };
        if len == -1 {
            params.push(None);
            assert(param_models(params@) =~= param_models(before).push(None));
            next += 4;
        } else if len >= 0 && len as usize <= bytes.len() - next - 4 {
            let start = next + 4;
            let end = start + len as usize;
            params.push(Some(copy_range(bytes, start, end)));
            assert(param_models(params@) =~= param_models(before).push(
                Some(bytes@.subrange(start as int, end as int)),
            ));
            next = end;
        } else {
            proof {
                lemma_params_fail(bytes@, from as int, (i + 1) as nat, count as nat);
            }
            return None;
        }
        i += 1;
    }
    Some((params, next))
}

proof fn lemma_params_fail(bytes: Seq<u8>, from: int, failed: nat, count: nat)
    requires
        params_at(bytes, from, failed) is None,
        failed <= count,
    ensures
        params_at(bytes, from, count) is None,
    decreases count,
{
    if failed < count {
        lemma_params_fail(bytes, from, failed, (count - 1) as nat);
    }
}

fn read_counted_i16s(bytes: &[u8], from: usize) -> (numbers: Option<(Vec<i16>, usize)>)
    requires
        from <= bytes@.len(),
    ensures
        match numbers {
            Some((numbers, next)) => counted_i16s_at(bytes@, from as int) == Some(
                (numbers@, next as int),
            ) && next <= bytes@.len(),
            None => counted_i16s_at(bytes@, from as int) is None,
        },
{
    match read_i16(bytes, from) {
        Some(count) => if count >= 0 {
            read_i16s(bytes, from + 2, count as usize)
        } else {
            None
        },
        None => None,
    }
}

fn read_bind(payload: &[u8]) -> (request: Option<Request>)
    ensures
        match request {
            Some(request) => bind_of(payload@) == Some(request@),
            None => bind_of(payload@) is None,
        },
{
    let (portal_name, at_statement) = match read_text(payload, 0) {
        Some(read) => read,
        None => {
            return None;
        },
    };
    let (statement_name, at_formats) = match read_text(payload, at_statement) {
        Some(read) => read,
        None => {
            return None;
        },
    };
    let (query_param_formats, at_count) = match read_counted_i16s(payload, at_formats) {
        Some(read) => read,
        None => {
            return None;
        },
    };
    let count = match read_i16(payload, at_count) {
        Some(count) => count,
        None => {
            return None;
        },
    };
    if count < 0 {
        return None;
    }
    let (query_params, at_results) = match read_params(payload, at_count + 2, count as usize) {
        Some(read) => read,
        None => {
            return None;
        },
    };
    let (result_value_formats, end) = match read_counted_i16s(payload, at_results) {
        Some(read) => read,
        None => {
            return None;
        },
    };
    if end != payload.len() {
        return None;
    }
    Some(
        Request::Bind {
            portal_name,
            statement_name,
            query_param_formats,
            query_params,
            result_value_formats,
        },
    )
}

fn read_parse(payload: &[u8]) -> (request: Option<Request>)
    ensures
        match request {
            Some(request) => parse_of(payload@) == Some(request@),
            None => parse_of(payload@) is None,
        },
{
    let (statement_name, at_sql) = match read_text(payload, 0) {
        Some(read) => read,
        None => {
            return None;
        },
    };
    let (sql, at_count) = match read_text(payload, at_sql) {
        Some(read) => read,
        None => {
            return None;
        },
    };
    let count = match read_i16(payload, at_count) {
        Some(count) => count,
        None => {
            return None;
        },
    };
    if count < 0 {
        return None;
    }
    let (param_types, end) = match read_u32s(payload, at_count + 2, count as usize) {
        Some(read) => read,
        None => {
            return None;
        },
    };
    if end != payload.len() {
        return None;
    }
    Some(Request::Parse { statement_name, sql, param_types })
}

fn read_execute(payload: &[u8]) -> (request: Option<Request>)
    ensures
        match request {
            Some(request) => execute_of(payload@) == Some(request@),
            None => execute_of(payload@) is None,
        },
{
    let (portal_name, at_rows) = match read_text(payload, 0) {
        Some(read) => read,
        None => {
            return None;
        },
    };
    let max_rows = match read_i32(payload, at_rows) {
        Some(max_rows) => max_rows,
        None => {
            return None;
        },
    };
    if payload.len() - at_rows != 4 {
        return None;
    }
    Some(Request::Execute { portal_name, max_rows })
}

fn read_target_name(payload: &[u8]) -> (name: Option<String>)
    ensures
        match name {
            Some(name) => target_name_of(payload@) == Some(name@),
            None => target_name_of(payload@) is None,
        },
{
    if payload.len() < 1 {
        return None;
    }
    match read_text(payload, 1) {
        Some((name, end)) => if end == payload.len() {
            Some(name)
        } else {
            None
        },
        None => None,
    }
}

/// The request that a message with the given tag and payload is.
pub fn parse_client_request(tag: u8, payload: &[u8]) -> (request: Result<Request, RequestError>)
    ensures
        match request {
            Ok(request) => request_of(tag, payload@) == Ok::<RequestModel, RequestError>(request@),
            Err(error) => request_of(tag, payload@) == Err::<RequestModel, RequestError>(error),
        },
{
    if tag == QUERY {
        match read_text(payload, 0) {
            Some((sql, end)) => if end == payload.len() {
                Ok(Request::Query { sql })
            } else {
                Err(RequestError::Malformed)
            },
            None => Err(RequestError::Malformed),
        }
    } else if tag == BIND {
        match read_bind(payload) {
            Some(request) => Ok(request),
            None => Err(RequestError::Malformed),
        }
    } else if tag == CLOSE {
        match read_target_name(payload) {
            Some(name) => if payload[0] == PORTAL {
                Ok(Request::ClosePortal { name })
            } else if payload[0] == STATEMENT {
                Ok(Request::CloseStatement { name })
            } else {
                Err(RequestError::Malformed)
            },
            None => Err(RequestError::Malformed),
        }
    } else if tag == DESCRIBE {
        match read_target_name(payload) {
            Some(name) => if payload[0] == PORTAL {
                Ok(Request::DescribePortal { name })
            } else if payload[0] == STATEMENT {
                Ok(Request::DescribeStatement { name })
            } else {
                Err(RequestError::Malformed)
            },
            None => Err(RequestError::Malformed),
        }
    } else if tag == EXECUTE {
        match read_execute(payload) {
            Some(request) => Ok(request),
            None => Err(RequestError::Malformed),
        }
    } else if tag == FLUSH {
        if payload.len() == 0 {
            Ok(Request::Flush)
        } else {
            Err(RequestError::Malformed)
        }
    } else if tag == PARSE {
        match read_parse(payload) {
            Some(request) => Ok(request),
            None => Err(RequestError::Malformed),
        }
    } else if tag == SYNC {
        if payload.len() == 0 {
            Ok(Request::Sync)
        } else {
            Err(RequestError::Malformed)
        }
    } else if tag == TERMINATE {
        if payload.len() == 0 {
            Ok(Request::Terminate)
        } else {
            Err(RequestError::Malformed)
        }
    } else {
        Err(RequestError::UnknownTag)
    }
}

} // verus!
