//! The acknowledge body and its builder.

use crate::dis::enumerations::{AcknowledgeFlag, ResponseFlag};
use crate::dis::model::EntityId;
use vstd::prelude::*;

verus! {

/// The body of an acknowledge packet.
#[derive(Clone, Copy, Debug, PartialEq, Eq, Structural)]
pub struct Acknowledge {
    pub originating_id: EntityId,
    pub receiving_id: EntityId,
    pub acknowledge_flag: AcknowledgeFlag,
    pub response_flag: ResponseFlag,
    pub request_id: u32,
}

impl Default for Acknowledge {
    fn default() -> (body: Acknowledge)
        ensures
            body == (Acknowledge {
                originating_id: EntityId { site: 0, application: 0, entity: 0 },
                receiving_id: EntityId { site: 0, application: 0, entity: 0 },
                acknowledge_flag: AcknowledgeFlag(0),
                response_flag: ResponseFlag(0),
                request_id: 0,
            }),
    {
        Acknowledge {
            originating_id: EntityId { site: 0, application: 0, entity: 0 },
            receiving_id: EntityId { site: 0, application: 0, entity: 0 },
            acknowledge_flag: AcknowledgeFlag(0),
            response_flag: ResponseFlag(0),
            request_id: 0,
        }
    }
}

/// Builds an acknowledge body field by field.
pub struct AcknowledgeBuilder(pub Acknowledge);

impl Default for AcknowledgeBuilder {
    fn default() -> (builder: AcknowledgeBuilder)
        ensures
            builder.0 == (Acknowledge {
                originating_id: EntityId { site: 0, application: 0, entity: 0 },
                receiving_id: EntityId { site: 0, application: 0, entity: 0 },
                acknowledge_flag: AcknowledgeFlag(0),
                response_flag: ResponseFlag(0),
                request_id: 0,
            }),
    {
        Self::new()
    }
}

impl AcknowledgeBuilder {
    /// A builder that starts from the default body.
    #[must_use]
    pub fn new() -> (builder: AcknowledgeBuilder)
        ensures
            builder.0 == (Acknowledge {
                originating_id: EntityId { site: 0, application: 0, entity: 0 },
                receiving_id: EntityId { site: 0, application: 0, entity: 0 },
                acknowledge_flag: AcknowledgeFlag(0),
                response_flag: ResponseFlag(0),
                request_id: 0,
            }),
    {
        AcknowledgeBuilder(Acknowledge::default())
    }

    /// A builder that starts from `body`.
    #[must_use]
    pub fn new_from_body(body: Acknowledge) -> (builder: AcknowledgeBuilder)
        ensures
            builder.0 == body,
    {
        AcknowledgeBuilder(body)
    }

    /// The body as built so far.
    #[must_use]
    pub fn build(self) -> (body: Acknowledge)
        ensures
            body == self.0,
    {
        self.0
    }

    #[must_use]
    pub fn with_origination_id(self, originating_id: EntityId) -> (builder: AcknowledgeBuilder)
        ensures
            builder.0 == (Acknowledge { originating_id, ..self.0 }),
    {
        let mut builder = self;
        builder.0.originating_id = originating_id;
        builder
    }

    #[must_use]
    pub fn with_receiving_id(self, receiving_id: EntityId) -> (builder: AcknowledgeBuilder)
        ensures
            builder.0 == (Acknowledge { receiving_id, ..self.0 }),
    {
        let mut builder = self;
        builder.0.receiving_id = receiving_id;
        builder
    }

    #[must_use]
    pub fn with_acknowledge_flag(self, acknowledge_flag: AcknowledgeFlag) -> (builder:
        AcknowledgeBuilder)
        ensures
            builder.0 == (Acknowledge { acknowledge_flag, ..self.0 }),
    {
        let mut builder = self;
        builder.0.acknowledge_flag = acknowledge_flag;
        builder
    }

    #[must_use]
    pub fn with_response_flag(self, response_flag: ResponseFlag) -> (builder: AcknowledgeBuilder)
        ensures
            builder.0 == (Acknowledge { response_flag, ..self.0 }),
    {
        let mut builder = self;
        builder.0.response_flag = response_flag;
        builder
    }

    #[must_use]
    pub fn with_request_id(self, request_id: u32) -> (builder: AcknowledgeBuilder)
        ensures
            builder.0 == (Acknowledge { request_id, ..self.0 }),
    {
        let mut builder = self;
        builder.0.request_id = request_id;
        builder
    }
}

} // verus!
