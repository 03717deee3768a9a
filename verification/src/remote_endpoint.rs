//! The address record that a connection attempt is aimed at.

use vstd::prelude::*;

verus! {

/// A remote endpoint: what is known about where to connect.
///
/// Every field is optional and independent of the others. Nothing checks that
/// a host name and an address literal agree; which of them takes precedence is
/// the caller's decision. An endpoint starts empty and is filled in field by
/// field.
pub struct RemoteEndpoint {
    pub hostname: Option<String>,
    pub service: Option<String>,
    /// The four octets of an IPv4 address, most significant first.
    pub ipv4: Option<[u8; 4]>,
    /// The sixteen octets of an IPv6 address, most significant first.
    pub ipv6: Option<[u8; 16]>,
    pub port: Option<u16>,
}

/// The mathematical value of a [`RemoteEndpoint`].
pub struct RemoteEndpointView {
    pub hostname: Option<Seq<char>>,
    pub service: Option<Seq<char>>,
    pub ipv4: Option<[u8; 4]>,
    pub ipv6: Option<[u8; 16]>,
    pub port: Option<u16>,
}

impl RemoteEndpointView {
    /// The endpoint of which nothing is known.
    pub open spec fn empty() -> RemoteEndpointView {
        RemoteEndpointView { hostname: None, service: None, ipv4: None, ipv6: None, port: None }
    }
}

/// The text of an optional string.
pub open spec fn text_of(s: Option<String>) -> Option<Seq<char>> {
    match s {
        Some(s) => Some(s@),
        None => None,
    }
}

impl View for RemoteEndpoint {
    type V = RemoteEndpointView;

    open spec fn view(&self) -> RemoteEndpointView {
        RemoteEndpointView {
            hostname: text_of(self.hostname),
            service: text_of(self.service),
            ipv4: self.ipv4,
            ipv6: self.ipv6,
            port: self.port,
        }
    }
}

impl RemoteEndpoint {
    /// Each field of the value is the field of the endpoint: the addresses
    /// and the port themselves, and the text of the two names.
    pub proof fn lemma_view_fields(&self)
        ensures
            self@.hostname == text_of(self.hostname),
            self@.service == text_of(self.service),
            self@.ipv4 == self.ipv4,
            self@.ipv6 == self.ipv6,
            self@.port == self.port,
    {
    }

    /// An endpoint with no field set.
    pub fn new() -> (endpoint: RemoteEndpoint)
        ensures
            endpoint@ == RemoteEndpointView::empty(),
    {
        RemoteEndpoint { hostname: None, service: None, ipv4: None, ipv6: None, port: None }
    }

    /// Sets the host name and leaves every other field as it was.
    pub fn with_hostname(&mut self, hostname: String)
        ensures
            final(self)@ == (RemoteEndpointView { hostname: Some(hostname@), ..old(self)@ }),
    {
        self.hostname = Some(hostname);
    }

    /// Sets the service name and leaves every other field as it was.
    pub fn with_service(&mut self, service: String)
        ensures
            final(self)@ == (RemoteEndpointView { service: Some(service@), ..old(self)@ }),
    {
        self.service = Some(service);
    }

    /// Sets the IPv4 address and leaves every other field as it was.
    pub fn with_ipv4(&mut self, octets: [u8; 4])
        ensures
            final(self)@ == (RemoteEndpointView { ipv4: Some(octets), ..old(self)@ }),
    {
        self.ipv4 = Some(octets);
    }

    /// Sets the IPv6 address and leaves every other field as it was.
    pub fn with_ipv6(&mut self, octets: [u8; 16])
        ensures
            final(self)@ == (RemoteEndpointView { ipv6: Some(octets), ..old(self)@ }),
    {
        self.ipv6 = Some(octets);
    }

    /// Sets the port and leaves every other field as it was.
    pub fn with_port(&mut self, port: u16)
        ensures
            final(self)@ == (RemoteEndpointView { port: Some(port), ..old(self)@ }),
    {
        self.port = Some(port);
    }

    /// The host name, if one was set.
    pub fn hostname(&self) -> (hostname: Option<&String>)
        ensures
            match hostname {
                Some(s) => self@.hostname == Some(s@),
                None => self@.hostname is None,
            },
    {
        self.hostname.as_ref()
    }

    /// The IPv4 address, if one was set.
    pub fn ipv4(&self) -> (octets: Option<[u8; 4]>)
        ensures
            octets == self@.ipv4,
    {
        self.ipv4
    }

    /// The port, if one was set.
    pub fn port(&self) -> (port: Option<u16>)
        ensures
            port == self@.port,
    {
        self.port
    }

    /// The service name, if one was set.
    pub fn service(&self) -> (service: Option<&String>)
        ensures
            match service {
                Some(s) => self@.service == Some(s@),
                None => self@.service is None,
            },
    {
        self.service.as_ref()
    }

    /// The IPv6 address, if one was set.
    pub fn ipv6(&self) -> (octets: Option<[u8; 16]>)
        ensures
            octets == self@.ipv6,
    {
        self.ipv6
    }
}

} // verus!
