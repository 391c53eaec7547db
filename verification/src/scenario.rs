//! The registry of transport smoke scenarios: one identifier per scenario
//! binary, pairing each bridged transport combination with both directions of
//! publish/subscribe and request/response traffic.

use vstd::prelude::*;

verus! {

/// The number of registered smoke scenarios.
pub const SCENARIO_COUNT: usize = 8;

/// The identifiers of every registered smoke scenario.
pub fn scenario_ids() -> (r: Vec<&'static str>)
    ensures
        r@.len() == SCENARIO_COUNT,
        r@[0]@ == "smoke-zenoh-mqtt-ps-zenoh-publisher-mqtt-subscriber"@,
        r@[1]@ == "smoke-zenoh-mqtt-ps-mqtt-publisher-zenoh-subscriber"@,
        r@[2]@ == "smoke-zenoh-mqtt-rr-zenoh-client-mqtt-service"@,
        r@[3]@ == "smoke-zenoh-mqtt-rr-mqtt-client-zenoh-service"@,
        r@[4]@ == "smoke-zenoh-someip-ps-zenoh-publisher-someip-subscriber"@,
        r@[5]@ == "smoke-zenoh-someip-ps-someip-publisher-zenoh-subscriber"@,
        r@[6]@ == "smoke-zenoh-someip-rr-zenoh-client-someip-service"@,
        r@[7]@ == "smoke-zenoh-someip-rr-someip-client-zenoh-service"@,
{
    let mut ids: Vec<&'static str> = Vec::new();
    ids.push("smoke-zenoh-mqtt-ps-zenoh-publisher-mqtt-subscriber");
    ids.push("smoke-zenoh-mqtt-ps-mqtt-publisher-zenoh-subscriber");
    ids.push("smoke-zenoh-mqtt-rr-zenoh-client-mqtt-service");
    ids.push("smoke-zenoh-mqtt-rr-mqtt-client-zenoh-service");
    ids.push("smoke-zenoh-someip-ps-zenoh-publisher-someip-subscriber");
    ids.push("smoke-zenoh-someip-ps-someip-publisher-zenoh-subscriber");
    ids.push("smoke-zenoh-someip-rr-zenoh-client-someip-service");
    ids.push("smoke-zenoh-someip-rr-someip-client-zenoh-service");
    ids
}

} // verus!
