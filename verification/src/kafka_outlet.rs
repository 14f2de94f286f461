use vstd::prelude::*;

verus! {

use vstd::string::StringExecFns;

/// The service-start request a kafka outlet creation amounts to: which
/// node to ask, the request path, the service to start under which local
/// address, and the broker it connects to. Sending this to the node's
/// service API and reporting progress are the caller's business.
pub struct StartServiceRequest {
    pub node_name: String,
    pub path: String,
    pub service_name: String,
    pub service_address: String,
    pub bootstrap_server: String,
}

/// The local address a kafka outlet service is registered under when the
/// caller names none.
pub fn kafka_default_outlet_addr() -> (r: String)
    ensures
        r@ == "kafka_outlet"@,
{
    String::from_str("kafka_outlet")
}

/// The bootstrap broker address used when the caller names none.
pub fn kafka_default_outlet_server() -> (r: String)
    ensures
        r@ == "127.0.0.1:9092"@,
{
    String::from_str("127.0.0.1:9092")
}

/// Creates a new kafka outlet service on a node: the command's inputs,
/// as plain values.
pub struct CreateCommand {
    /// The node that is to run the service.
    pub node_name: String,
    /// The local address of the service.
    pub addr: String,
    /// The address of the kafka bootstrap broker.
    pub bootstrap_server: String,
}

impl CreateCommand {
    /// Turns the command into the request to post to the node: the fixed
    /// service path and name, with the command's addresses carried over
    /// unchanged.
    pub fn run(self) -> (r: StartServiceRequest)
        ensures
            r.node_name@ == self.node_name@,
            r.path@ == "/node/services/kafka_outlet"@,
            r.service_name@ == "KafkaOutlet"@,
            r.service_address@ == self.addr@,
            r.bootstrap_server@ == self.bootstrap_server@,
    {
        StartServiceRequest {
            node_name: self.node_name,
            path: String::from_str("/node/services/kafka_outlet"),
            service_name: String::from_str("KafkaOutlet"),
            service_address: self.addr,
            bootstrap_server: self.bootstrap_server,
        }
    }
}

} // verus!
