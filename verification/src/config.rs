//! The client's configuration.

use vstd::prelude::*;
use vstd::string::StringExecFns;
use crate::connection::push_char;

verus! {

/// The whole configuration file of a client.
#[derive(Debug, Clone)]
pub struct Config {
    /// Settings of the client.
    pub client: Client,
}

/// Settings of a client.
#[derive(Debug, Clone)]
pub struct Client {
    /// Socket address where this client listens.
    pub listen: Sock,
    /// Name of the client.
    pub name: Option<String>,
    /// Directory where downloads go.
    pub route_down: Option<String>,
    /// Capacity of the buffers of a connection.
    pub buffer_size: usize,
}

/// An IP address and a port, each optional.
#[derive(Debug, Clone)]
pub struct Sock {
    pub ip: Option<String>,
    pub port: Option<String>,
}

/// The listening address `ip:port`.
pub open spec fn listener_text(ip: Seq<char>, port: Seq<char>) -> Seq<char> {
    ip.push(':') + port
}

impl Config {
    /// Both parts of the listening address are set.
    pub open spec fn has_listener(&self) -> bool {
        self.client.listen.ip is Some && self.client.listen.port is Some
    }

    /// The address this client listens on, as `ip:port`.
    pub fn get_listener(&self) -> (r: String)
        requires
            self.has_listener(),
        ensures
            r@ == listener_text(
                self.client.listen.ip->Some_0@,
                self.client.listen.port->Some_0@,
            ),
    {
        let listen = &self.client.listen;
        match (&listen.ip, &listen.port) {
            (Some(ip), Some(port)) => {
                let mut address = String::from_str(ip.as_str());
                push_char(&mut address, ':');
                address.append(port.as_str());
                address
            },
            _ => String::new(),
        }
    }
}

/// The listening address is the ip, then one ':', then the whole port: its
/// length is the sum of both lengths plus one, it starts with the ip, holds ':'
/// right after it, and ends with the port, whatever their lengths.
pub proof fn law_listener_is_ip_colon_port(ip: Seq<char>, port: Seq<char>)
    ensures
        listener_text(ip, port).len() == ip.len() + 1 + port.len(),
        listener_text(ip, port).subrange(0, ip.len() as int) == ip,
        listener_text(ip, port)[ip.len() as int] == ':',
        listener_text(ip, port).skip(ip.len() as int + 1) == port,
{
    let l = listener_text(ip, port);
    assert(l.subrange(0, ip.len() as int) =~= ip);
    assert(l.skip(ip.len() as int + 1) =~= port);
}
} // verus!
