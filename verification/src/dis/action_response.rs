//! The action response body and its builder.

use crate::dis::enumerations::RequestStatus;
use crate::dis::model::{EntityId, FixedDatum, VariableDatum};
use vstd::prelude::*;

verus! {

/// The body of an action response packet.
#[derive(Debug)]
pub struct ActionResponse {
    pub originating_id: EntityId,
    pub receiving_id: EntityId,
    pub request_id: u32,
    pub request_status: RequestStatus,
    pub fixed_datum_records: Vec<FixedDatum>,
    pub variable_datum_records: Vec<VariableDatum>,
}

impl ActionResponse {
    /// Whether the body is the default one: zero identifiers and no datum.
    pub open spec fn is_default(&self) -> bool {
        &&& self.originating_id == (EntityId { site: 0, application: 0, entity: 0 })
        &&& self.receiving_id == (EntityId { site: 0, application: 0, entity: 0 })
        &&& self.request_id == 0
        &&& self.request_status == RequestStatus(0)
        &&& self.fixed_datum_records@.len() == 0
        &&& self.variable_datum_records@.len() == 0
    }
}

impl Default for ActionResponse {
    fn default() -> (body: ActionResponse)
        ensures
            body.is_default(),
    {
        ActionResponse {
            originating_id: EntityId { site: 0, application: 0, entity: 0 },
            receiving_id: EntityId { site: 0, application: 0, entity: 0 },
            request_id: 0,
            request_status: RequestStatus(0),
            fixed_datum_records: Vec::new(),
            variable_datum_records: Vec::new(),
        }
    }
}

/// Builds an action response body field by field.
pub struct ActionResponseBuilder(pub ActionResponse);

impl Default for ActionResponseBuilder {
    fn default() -> (builder: ActionResponseBuilder)
        ensures
            builder.0.is_default(),
    {
        Self::new()
    }
}

impl ActionResponseBuilder {
    /// A builder that starts from the default body.
    #[must_use]
    pub fn new() -> (builder: ActionResponseBuilder)
        ensures
            builder.0.is_default(),
    {
        ActionResponseBuilder(ActionResponse::default())
    }

    /// A builder that starts from `body`.
    #[must_use]
    pub fn new_from_body(body: ActionResponse) -> (builder: ActionResponseBuilder)
        ensures
            builder.0 == body,
    {
        ActionResponseBuilder(body)
    }

    /// The body as built so far.
    #[must_use]
    pub fn build(self) -> (body: ActionResponse)
        ensures
            body == self.0,
    {
        self.0
    }

    #[must_use]
    pub fn with_origination_id(self, originating_id: EntityId) -> (builder: ActionResponseBuilder)
        ensures
            builder.0 == (ActionResponse { originating_id, ..self.0 }),
    {
        let mut builder = self;
        builder.0.originating_id = originating_id;
        builder
    }

    #[must_use]
    pub fn with_receiving_id(self, receiving_id: EntityId) -> (builder: ActionResponseBuilder)
        ensures
            builder.0 == (ActionResponse { receiving_id, ..self.0 }),
    {
        let mut builder = self;
        builder.0.receiving_id = receiving_id;
        builder
    }

    #[must_use]
    pub fn with_request_id(self, request_id: u32) -> (builder: ActionResponseBuilder)
        ensures
            builder.0 == (ActionResponse { request_id, ..self.0 }),
    {
        let mut builder = self;
        builder.0.request_id = request_id;
        builder
    }

    #[must_use]
    pub fn with_request_status(self, request_status: RequestStatus) -> (builder:
        ActionResponseBuilder)
        ensures
            builder.0 == (ActionResponse { request_status, ..self.0 }),
    {
        let mut builder = self;
        builder.0.request_status = request_status;
        builder
    }

    #[must_use]
    pub fn with_fixed_datums(self, fixed_datum_records: Vec<FixedDatum>) -> (builder:
        ActionResponseBuilder)
        ensures
            builder.0 == (ActionResponse { fixed_datum_records, ..self.0 }),
    {
        let mut builder = self;
        builder.0.fixed_datum_records = fixed_datum_records;
        builder
    }

    #[must_use]
    pub fn with_variable_datums(self, variable_datum_records: Vec<VariableDatum>) -> (builder:
        ActionResponseBuilder)
        ensures
            builder.0 == (ActionResponse { variable_datum_records, ..self.0 }),
    {
        let mut builder = self;
        builder.0.variable_datum_records = variable_datum_records;
        builder
    }
}

} // verus!
