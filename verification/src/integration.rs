//! Messages between the components of the ecosystem.
//!
//! A handler belongs to one component and protects every payload it sends
//! with the codec of one tier. It accepts a message only if the message is
//! addressed to its component and the payload decodes.

use vstd::prelude::*;
use crate::error_correction::{
    create_error_correction, made_for, Codec, ErrorCorrection, ErrorCorrectionType,
};

verus! {

/// The components that exchange messages.
#[derive(Clone, Copy, Debug, PartialEq, Eq, Structural)]
pub enum ComponentId {
    /// The Nourish chain.
    Nrsh,
    /// The Elixir chain.
    Elxr,
    /// The Immortality chain.
    Imrt,
    /// The liquidity pallet.
    LiquidityPallet,
    /// The Eigenlayer integration.
    Eigenlayer,
    /// The daemonless oracle.
    DaemonlessOracle,
}

/// The transports a message can travel on.
#[derive(Clone, Copy, Debug, PartialEq, Eq, Structural)]
pub enum CommunicationProtocol {
    /// The ActorX messaging framework.
    ActorX,
    /// Kafka.
    Kafka,
    /// RabbitMQ.
    RabbitMq,
    /// Direct calls into the runtime.
    DirectCall,
}

/// How one component is reached.
#[derive(Clone, Debug)]
pub struct IntegrationConfig {
    /// The component.
    pub component_id: ComponentId,
    /// The tier that protects its messages.
    pub error_correction: ErrorCorrectionType,
    /// The transport.
    pub protocol: CommunicationProtocol,
    /// The largest message it takes, in bytes.
    pub max_message_size: u32,
    /// Whether messages must be authenticated.
    pub authentication_required: bool,
}

/// A message on its way from one component to another.
#[derive(Clone, Debug)]
pub struct MessageEnvelope {
    /// The sender.
    pub source: ComponentId,
    /// The addressee.
    pub destination: ComponentId,
    /// The payload, framed by the sender's codec.
    pub payload: Vec<u8>,
    /// The tier of the codec that framed the payload.
    pub error_correction: ErrorCorrectionType,
    /// The signature over the message.
    pub signature: Vec<u8>,
    /// When the message was sent.
    pub timestamp: u64,
}

/// Why a message was not sent or not accepted.
#[derive(Clone, Copy, Debug, PartialEq, Eq, Structural)]
pub enum IntegrationError {
    /// The message is for another component.
    UnsupportedComponent,
    /// The message could not be encoded or decoded.
    CodecError,
    /// The payload could not be framed, or the frame did not decode.
    ErrorCorrectionFailed,
    /// The sender could not be authenticated.
    AuthenticationFailed,
    /// The message is larger than the addressee takes.
    MessageTooLarge,
    /// The transport failed.
    ProtocolError,
}

/// What handles the messages that arrive at a component.
pub trait MessageHandler {
    /// The component this handler belongs to.
    spec fn component(&self) -> ComponentId;

    /// What this handler makes of `message`.
    spec fn verdict(&self, message: MessageEnvelope) -> Result<(), IntegrationError>;

    /// Handles a message that arrived.
    fn handle_message(&self, message: MessageEnvelope) -> (result: Result<(), IntegrationError>)
        ensures
            result == self.verdict(message),
    ;

    /// The component this handler belongs to.
    fn component_id(&self) -> (id: ComponentId)
        ensures
            id == self.component(),
    ;
}

/// Handler for messages that travel on ActorX.
pub struct ActorXMessageHandler {
    component_id: ComponentId,
    error_correction: Codec,
}

impl ActorXMessageHandler {
    /// The component this handler belongs to.
    pub closed spec fn owner(self) -> ComponentId {
        self.component_id
    }

    /// The codec that protects what this handler sends.
    pub closed spec fn codec(self) -> Codec {
        self.error_correction
    }

    /// The envelope in which this handler sends `payload` to `destination`:
    /// the payload framed by the handler's codec, its tier noted, signature
    /// and timestamp still blank. An empty payload cannot be framed.
    pub open spec fn sealed(self, destination: ComponentId, payload: Seq<u8>) -> Result<
        MessageEnvelopeView,
        IntegrationError,
    > {
        if payload.len() == 0 {
            Err(IntegrationError::ErrorCorrectionFailed)
        } else {
            Ok(
                MessageEnvelopeView {
                    source: self.owner(),
                    destination,
                    payload: self.codec().frame_of(payload),
                    error_correction: self.codec().tier(),
                    signature: Seq::empty(),
                    timestamp: 0,
                },
            )
        }
    }

    /// The payload this handler reads out of `message`: none if the message
    /// is for another component, none if the frame does not decode.
    pub open spec fn opened(self, message: MessageEnvelope) -> Result<Seq<u8>, IntegrationError> {
        if message.destination != self.owner() {
            Err(IntegrationError::UnsupportedComponent)
        } else {
            match self.codec().payload_of(message.payload@) {
                Ok(payload) => Ok(payload),
                Err(_) => Err(IntegrationError::ErrorCorrectionFailed),
            }
        }
    }

    /// A handler for `component_id` that protects messages with the codec the
    /// factory makes for `error_correction_type`.
    pub fn new(component_id: ComponentId, error_correction_type: ErrorCorrectionType) -> (handler:
        Self)
        ensures
            handler.owner() == component_id,
            made_for(handler.codec(), error_correction_type),
            handler.codec().tier() == error_correction_type,
    {
        Self { component_id, error_correction: create_error_correction(error_correction_type) }
    }

    /// Puts `payload` into the envelope for `destination`.
    pub fn seal(&self, destination: ComponentId, payload: Vec<u8>) -> (result: Result<
        MessageEnvelope,
        IntegrationError,
    >)
        ensures
            match result {
                Ok(envelope) => self.sealed(destination, payload@) == Ok::<
                    MessageEnvelopeView,
                    IntegrationError,
                >(envelope@),
                Err(error) => self.sealed(destination, payload@) == Err::<
                    MessageEnvelopeView,
                    IntegrationError,
                >(error),
            },
    {
        let encoded_payload = match self.error_correction.encode(payload.as_slice()) {
            Ok(frame) => frame,
            Err(_) => {
                return Err(IntegrationError::ErrorCorrectionFailed);
            },
        };
        Ok(
            MessageEnvelope {
                source: self.component_id,
                destination,
                payload: encoded_payload,
                error_correction: self.error_correction.correction_type(),
                signature: Vec::new(),
                timestamp: 0,
            },
        )
    }

    /// Takes the payload out of a message that arrived.
    pub fn open(&self, message: &MessageEnvelope) -> (result: Result<Vec<u8>, IntegrationError>)
        ensures
            match result {
                Ok(payload) => self.opened(*message) == Ok::<Seq<u8>, IntegrationError>(payload@),
                Err(error) => self.opened(*message) == Err::<Seq<u8>, IntegrationError>(error),
            },
    {
        if message.destination != self.component_id {
            return Err(IntegrationError::UnsupportedComponent);
        }
        match self.error_correction.decode(message.payload.as_slice()) {
            Ok(payload) => Ok(payload),
            Err(_) => Err(IntegrationError::ErrorCorrectionFailed),
        }
    }

    /// Sends `payload` to `destination`. This succeeds exactly when the
    /// payload can be sealed, that is, when it is not empty.
    pub fn send_message(&self, destination: ComponentId, payload: Vec<u8>) -> (result: Result<
        (),
        IntegrationError,
    >)
        ensures
            payload@.len() > 0 ==> result == Ok::<(), IntegrationError>(()),
            payload@.len() == 0 ==> result == Err::<(), IntegrationError>(
                IntegrationError::ErrorCorrectionFailed,
            ),
    {
        match self.seal(destination, payload) {
            Ok(_) => Ok(()),
            Err(error) => Err(error),
        }
    }
}

/// A [`MessageEnvelope`] with its byte strings seen as sequences.
pub struct MessageEnvelopeView {
    /// The sender.
    pub source: ComponentId,
    /// The addressee.
    pub destination: ComponentId,
    /// The payload, framed by the sender's codec.
    pub payload: Seq<u8>,
    /// The tier of the codec that framed the payload.
    pub error_correction: ErrorCorrectionType,
    /// The signature over the message.
    pub signature: Seq<u8>,
    /// When the message was sent.
    pub timestamp: u64,
}

impl View for MessageEnvelope {
    type V = MessageEnvelopeView;

    open spec fn view(&self) -> MessageEnvelopeView {
        MessageEnvelopeView {
            source: self.source,
            destination: self.destination,
            payload: self.payload@,
            error_correction: self.error_correction,
            signature: self.signature@,
            timestamp: self.timestamp,
        }
    }
}

impl MessageHandler for ActorXMessageHandler {
    open spec fn component(&self) -> ComponentId {
        self.owner()
    }

    open spec fn verdict(&self, message: MessageEnvelope) -> Result<(), IntegrationError> {
        match self.opened(message) {
            Ok(_) => Ok(()),
            Err(error) => Err(error),
        }
    }

    fn handle_message(&self, message: MessageEnvelope) -> (result: Result<(), IntegrationError>) {
        match self.open(&message) {
            Ok(_) => Ok(()),
            Err(error) => Err(error),
        }
    }

    fn component_id(&self) -> (id: ComponentId) {
        self.component_id
    }
}

/// The component and tier of each handler that [`create_integration_handlers`] makes.
pub open spec fn standard_handlers() -> Seq<(ComponentId, ErrorCorrectionType)> {
    seq![
        (ComponentId::Nrsh, ErrorCorrectionType::Comprehensive),
        (ComponentId::Imrt, ErrorCorrectionType::Comprehensive),
        (ComponentId::LiquidityPallet, ErrorCorrectionType::Classical),
        (ComponentId::Eigenlayer, ErrorCorrectionType::Quantum),
        (ComponentId::DaemonlessOracle, ErrorCorrectionType::Bridge),
    ]
}

/// Makes the handlers of all components this chain talks to.
pub fn create_integration_handlers() -> (handlers: Vec<ActorXMessageHandler>)
    ensures
        handlers@.len() == standard_handlers().len(),
        forall|i: int|
            0 <= i < handlers@.len() ==> {
                &&& (#[trigger] handlers@[i]).owner() == standard_handlers()[i].0
                &&& made_for(handlers@[i].codec(), standard_handlers()[i].1)
                &&& handlers@[i].codec().tier() == standard_handlers()[i].1
            },
{
    let mut handlers: Vec<ActorXMessageHandler> = Vec::new();
    handlers.push(ActorXMessageHandler::new(ComponentId::Nrsh, ErrorCorrectionType::Comprehensive));
    handlers.push(ActorXMessageHandler::new(ComponentId::Imrt, ErrorCorrectionType::Comprehensive));
    handlers.push(
        ActorXMessageHandler::new(ComponentId::LiquidityPallet, ErrorCorrectionType::Classical),
    );
    handlers.push(ActorXMessageHandler::new(ComponentId::Eigenlayer, ErrorCorrectionType::Quantum));
    handlers.push(
        ActorXMessageHandler::new(ComponentId::DaemonlessOracle, ErrorCorrectionType::Bridge),
    );
    handlers
}

} // verus!
