//! The typed messages that cross the wire, and their mathematical models.

use vstd::prelude::*;

verus! {

/// One column value of a row, or one argument of a remote call.
///
/// The integer variants keep the width and sign of the column they come from.
#[derive(Debug, Clone, PartialEq, Eq)]
pub enum TypeValue {
    Bool(bool),
    I8(i8),
    U8(u8),
    I16(i16),
    U16(u16),
    I32(i32),
    U32(u32),
    I64(i64),
    U64(u64),
    String(String),
    Bytes(Vec<u8>),
}

/// Mathematical model of a [`TypeValue`].
pub enum TypeValueView {
    Bool(bool),
    I8(i8),
    U8(u8),
    I16(i16),
    U16(u16),
    I32(i32),
    U32(u32),
    I64(i64),
    U64(u64),
    String(Seq<char>),
    Bytes(Seq<u8>),
}

impl View for TypeValue {
    type V = TypeValueView;

    open spec fn view(&self) -> TypeValueView {
        match self {
            TypeValue::Bool(b) => TypeValueView::Bool(*b),
            TypeValue::I8(n) => TypeValueView::I8(*n),
            TypeValue::U8(n) => TypeValueView::U8(*n),
            TypeValue::I16(n) => TypeValueView::I16(*n),
            TypeValue::U16(n) => TypeValueView::U16(*n),
            TypeValue::I32(n) => TypeValueView::I32(*n),
            TypeValue::U32(n) => TypeValueView::U32(*n),
            TypeValue::I64(n) => TypeValueView::I64(*n),
            TypeValue::U64(n) => TypeValueView::U64(*n),
            TypeValue::String(s) => TypeValueView::String(s@),
            TypeValue::Bytes(b) => TypeValueView::Bytes(b@),
        }
    }
}

impl TypeValueView {
    /// The number that an integer variant holds, whatever its width.
    pub open spec fn integer(self) -> Option<int> {
        match self {
            TypeValueView::I8(n) => Some(n as int),
            TypeValueView::U8(n) => Some(n as int),
            TypeValueView::I16(n) => Some(n as int),
            TypeValueView::U16(n) => Some(n as int),
            TypeValueView::I32(n) => Some(n as int),
            TypeValueView::U32(n) => Some(n as int),
            TypeValueView::I64(n) => Some(n as int),
            TypeValueView::U64(n) => Some(n as int),
            _ => None,
        }
    }
}

impl TypeValue {
    /// The number that an integer variant holds, whatever its width.
    pub fn as_integer(&self) -> (r: Option<i128>)
        ensures
            match r {
                Some(n) => self@.integer() == Some(n as int),
                None => self@.integer() is None,
            },
    {
        match self {
            TypeValue::I8(n) => Some(*n as i128),
            TypeValue::U8(n) => Some(*n as i128),
            TypeValue::I16(n) => Some(*n as i128),
            TypeValue::U16(n) => Some(*n as i128),
            TypeValue::I32(n) => Some(*n as i128),
            TypeValue::U32(n) => Some(*n as i128),
            TypeValue::I64(n) => Some(*n as i128),
            TypeValue::U64(n) => Some(*n as i128),
            _ => None,
        }
    }

    /// The value of an `I8`, nothing for any other variant.
    pub fn as_i8(&self) -> (r: Option<i8>)
        ensures
            r == (match self@ {
                TypeValueView::I8(n) => Some(n),
                _ => None,
            }),
    {
        match self {
            TypeValue::I8(n) => Some(*n),
            _ => None,
        }
    }
}

/// The views of a row's values, in order.
pub open spec fn values_view(values: Seq<TypeValue>) -> Seq<TypeValueView> {
    values.map_values(|v: TypeValue| v@)
}

/// What a row operation does to its row.
#[derive(Debug, Clone, Copy, PartialEq, Eq, Structural)]
pub enum TableOp {
    Insert,
    Delete,
    Update,
}

#[derive(Debug, Clone, PartialEq, Eq)]
pub struct IdentityTokenJson {
    pub identity: String,
    pub token: String,
}

pub struct IdentityTokenView {
    pub identity: Seq<char>,
    pub token: Seq<char>,
}

impl View for IdentityTokenJson {
    type V = IdentityTokenView;

    open spec fn view(&self) -> IdentityTokenView {
        IdentityTokenView { identity: self.identity@, token: self.token@ }
    }
}

impl IdentityTokenJson {
    pub fn new(identity: &str, token: &str) -> (r: Self)
        ensures
            r@ == (IdentityTokenView { identity: identity@, token: token@ }),
    {
        Self { identity: identity.to_owned(), token: token.to_owned() }
    }
}

#[derive(Debug, Clone, PartialEq, Eq)]
pub struct FunctionCallJson {
    pub reducer: String,
    pub arg_bytes: Vec<u8>,
}

pub struct FunctionCallView {
    pub reducer: Seq<char>,
    pub arg_bytes: Seq<u8>,
}

impl View for FunctionCallJson {
    type V = FunctionCallView;

    open spec fn view(&self) -> FunctionCallView {
        FunctionCallView { reducer: self.reducer@, arg_bytes: self.arg_bytes@ }
    }
}

/// One insert, delete or update of one row. Operations of a table update are
/// applied in the order in which they stand.
#[derive(Debug, Clone, PartialEq, Eq)]
pub struct TableRowOperationJson {
    pub op: TableOp,
    pub row_pk: String,
    pub row: Vec<TypeValue>,
}

pub struct TableRowOperationView {
    pub op: TableOp,
    pub row_pk: Seq<char>,
    pub row: Seq<TypeValueView>,
}

impl View for TableRowOperationJson {
    type V = TableRowOperationView;

    open spec fn view(&self) -> TableRowOperationView {
        TableRowOperationView { op: self.op, row_pk: self.row_pk@, row: values_view(self.row@) }
    }
}

/// The views of a table update's operations, in order.
pub open spec fn operations_view(ops: Seq<TableRowOperationJson>) -> Seq<TableRowOperationView> {
    ops.map_values(|op: TableRowOperationJson| op@)
}

#[derive(Debug, Clone, PartialEq, Eq)]
pub struct TableUpdateJson {
    pub table_id: u32,
    pub table_name: String,
    pub table_row_operations: Vec<TableRowOperationJson>,
}

pub struct TableUpdateView {
    pub table_id: u32,
    pub table_name: Seq<char>,
    pub table_row_operations: Seq<TableRowOperationView>,
}

impl View for TableUpdateJson {
    type V = TableUpdateView;

    open spec fn view(&self) -> TableUpdateView {
        TableUpdateView {
            table_id: self.table_id,
            table_name: self.table_name@,
            table_row_operations: operations_view(self.table_row_operations@),
        }
    }
}

/// The views of a subscription update's table updates, in order.
pub open spec fn updates_view(updates: Seq<TableUpdateJson>) -> Seq<TableUpdateView> {
    updates.map_values(|u: TableUpdateJson| u@)
}

#[derive(Debug, Clone, PartialEq, Eq)]
pub struct SubscriptionUpdateJson {
    pub table_updates: Vec<TableUpdateJson>,
}

pub struct SubscriptionUpdateView {
    pub table_updates: Seq<TableUpdateView>,
}

impl View for SubscriptionUpdateJson {
    type V = SubscriptionUpdateView;

    open spec fn view(&self) -> SubscriptionUpdateView {
        SubscriptionUpdateView { table_updates: updates_view(self.table_updates@) }
    }
}

#[derive(Debug, Clone, PartialEq, Eq)]
pub struct EventJson {
    pub timestamp: u64,
    /// `committed` or `failed`.
    pub status: String,
    /// The caller's identity, in hexadecimal.
    pub caller_identity: String,
    pub function_call: FunctionCallJson,
    pub energy_quanta_used: i64,
}

pub struct EventView {
    pub timestamp: u64,
    pub status: Seq<char>,
    pub caller_identity: Seq<char>,
    pub function_call: FunctionCallView,
    pub energy_quanta_used: i64,
}

impl View for EventJson {
    type V = EventView;

    open spec fn view(&self) -> EventView {
        EventView {
            timestamp: self.timestamp,
            status: self.status@,
            caller_identity: self.caller_identity@,
            function_call: self.function_call@,
            energy_quanta_used: self.energy_quanta_used,
        }
    }
}

#[derive(Debug, Clone, PartialEq, Eq)]
pub struct TransactionUpdateJson {
    pub event: EventJson,
    pub subscription_update: SubscriptionUpdateJson,
}

pub struct TransactionUpdateView {
    pub event: EventView,
    pub subscription_update: SubscriptionUpdateView,
}

impl View for TransactionUpdateJson {
    type V = TransactionUpdateView;

    open spec fn view(&self) -> TransactionUpdateView {
        TransactionUpdateView {
            event: self.event@,
            subscription_update: self.subscription_update@,
        }
    }
}

/// What the service sends.
#[derive(Debug, Clone, PartialEq, Eq)]
pub enum SpaceDbResponse {
    FunctionCall(FunctionCallJson),
    SubscriptionUpdate(SubscriptionUpdateJson),
    Event(EventJson),
    TransactionUpdate(TransactionUpdateJson),
    IdentityToken(IdentityTokenJson),
}

pub enum SpaceDbResponseView {
    FunctionCall(FunctionCallView),
    SubscriptionUpdate(SubscriptionUpdateView),
    Event(EventView),
    TransactionUpdate(TransactionUpdateView),
    IdentityToken(IdentityTokenView),
}

impl View for SpaceDbResponse {
    type V = SpaceDbResponseView;

    open spec fn view(&self) -> SpaceDbResponseView {
        match self {
            SpaceDbResponse::FunctionCall(c) => SpaceDbResponseView::FunctionCall(c@),
            SpaceDbResponse::SubscriptionUpdate(u) => SpaceDbResponseView::SubscriptionUpdate(u@),
            SpaceDbResponse::Event(e) => SpaceDbResponseView::Event(e@),
            SpaceDbResponse::TransactionUpdate(t) => SpaceDbResponseView::TransactionUpdate(t@),
            SpaceDbResponse::IdentityToken(t) => SpaceDbResponseView::IdentityToken(t@),
        }
    }
}

/// The arguments of the two reducers of the game: an entity and its input bits.
#[derive(Debug, Clone, Copy, PartialEq, Eq, Structural)]
pub struct Params {
    entity_id: u64,
    input: u8,
}

impl Params {
    pub fn new(entity_id: u64, input: u8) -> (r: Self)
        ensures
            r.entity_id() == entity_id,
            r.input() == input,
    {
        Params { entity_id, input }
    }

    pub closed spec fn entity_id(self) -> u64 {
        self.entity_id
    }

    pub closed spec fn input(self) -> u8 {
        self.input
    }
}

/// A remote call as it goes on the wire: the reducer's name and its
/// positional arguments.
#[derive(Debug, Clone, PartialEq, Eq)]
pub struct FnCall {
    name: String,
    args: Vec<TypeValue>,
}

pub struct FnCallView {
    pub name: Seq<char>,
    pub args: Seq<TypeValueView>,
}

impl View for FnCall {
    type V = FnCallView;

    closed spec fn view(&self) -> FnCallView {
        FnCallView { name: self.name@, args: values_view(self.args@) }
    }
}

impl FnCall {
    pub fn new(name: String, args: Vec<TypeValue>) -> (r: Self)
        ensures
            r@ == (FnCallView { name: name@, args: values_view(args@) }),
    {
        FnCall { name, args }
    }

    pub fn name(&self) -> (r: &String)
        ensures
            r@ == self@.name,
    {
        &self.name
    }

    pub fn args(&self) -> (r: &Vec<TypeValue>)
        ensures
            values_view(r@) == self@.args,
    {
        &self.args
    }
}

/// What the client asks of the service.
#[derive(Debug, Clone, PartialEq, Eq)]
pub enum SpaceDbRequest {
    /// Control only: never becomes a frame.
    Ping,
    /// Control only: never becomes a frame.
    Pong,
    FunctionCall { name: String, args: Vec<TypeValue> },
}

pub enum SpaceDbRequestView {
    Ping,
    Pong,
    FunctionCall { name: Seq<char>, args: Seq<TypeValueView> },
}

impl View for SpaceDbRequest {
    type V = SpaceDbRequestView;

    open spec fn view(&self) -> SpaceDbRequestView {
        match self {
            SpaceDbRequest::Ping => SpaceDbRequestView::Ping,
            SpaceDbRequest::Pong => SpaceDbRequestView::Pong,
            SpaceDbRequest::FunctionCall { name, args } => SpaceDbRequestView::FunctionCall {
                name: name@,
                args: values_view(args@),
            },
        }
    }
}

/// One WebSocket message, as plain values.
#[derive(Debug, Clone, PartialEq, Eq)]
pub enum Frame {
    Text(String),
    Binary(Vec<u8>),
    Ping(Vec<u8>),
    Pong(Vec<u8>),
    Close,
    /// A raw frame, which a reader never yields.
    Raw,
}

pub enum FrameView {
    Text(Seq<char>),
    Binary(Seq<u8>),
    Ping(Seq<u8>),
    Pong(Seq<u8>),
    Close,
    Raw,
}

impl View for Frame {
    type V = FrameView;

    open spec fn view(&self) -> FrameView {
        match self {
            Frame::Text(t) => FrameView::Text(t@),
            Frame::Binary(b) => FrameView::Binary(b@),
            Frame::Ping(b) => FrameView::Ping(b@),
            Frame::Pong(b) => FrameView::Pong(b@),
            Frame::Close => FrameView::Close,
            Frame::Raw => FrameView::Raw,
        }
    }
}

} // verus!
