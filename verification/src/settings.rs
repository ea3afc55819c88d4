//! The immutable settings record: broker endpoint, credentials, topic,
//! fixed message payload, and the input-pin identifier.

use vstd::prelude::*;

verus! {

/// Connection and publish parameters, loaded once at startup and never
/// mutated. The caller obtains the values (from a file or the environment)
/// and hands them over fully populated.
pub struct Settings {
    /// Broker endpoint URL.
    pub mqtt_url: String,
    /// Username presented during the connect handshake.
    pub mqtt_username: String,
    /// Password presented during the connect handshake.
    pub mqtt_password: String,
    /// Topic every notification is published to.
    pub mqtt_topic: String,
    /// The fixed payload of every notification.
    pub mqtt_message: String,
    /// Identifier of the digital input line to watch.
    pub gpio_port: u8,
}

/// One outbound publish, exactly as the event loop requests it: the
/// configured topic, the configured payload, and the fixed
/// quality-of-service level.
pub struct PublishRequest {
    pub topic: String,
    pub payload: String,
    pub qos: i32,
}

impl Settings {
    /// Builds the one publish request this system ever sends: the configured
    /// message to the configured topic, at quality of service "at least
    /// once". Every publish the loop issues goes through here, so every
    /// publish carries exactly these values.
    pub fn publish_request(&self) -> (r: PublishRequest)
        ensures
            r.topic == self.mqtt_topic,
            r.payload == self.mqtt_message,
            r.qos == crate::QOS,
    {
        PublishRequest {
            topic: self.mqtt_topic.clone(),
            payload: self.mqtt_message.clone(),
            qos: crate::QOS,
        }
    }
}

} // verus!
