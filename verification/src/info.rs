//! What the system knows of a camera that it has validated.
use vstd::prelude::*;
use crate::scan::IdInformation;

verus! {

/// The bus a camera is attached by.
#[derive(PartialEq, Eq, Structural, Clone, Copy, Debug)]
pub enum Protocol {
    USB,
    ETH,
}

/// Whether a camera is streaming.
#[derive(PartialEq, Eq, Structural, Clone, Copy, Debug)]
pub enum Status {
    OFFLINE,
    ONLINE,
}

/// How the system reaches a camera.
#[derive(PartialEq, Eq, Structural, Clone, Copy, Debug)]
pub enum ConnectionType {
    SSH,
    RTSP,
    /// Wired.
    HARD,
}

/// The name that `g_connection_type` gives a connection type.
pub open spec fn connection_type_name(c: ConnectionType) -> Seq<char> {
    match c {
        ConnectionType::SSH => "SSH"@,
        ConnectionType::RTSP => "RTSP"@,
        ConnectionType::HARD => "HARD"@,
    }
}

/// The content of a `CameraInfo`.
pub struct CameraInfoView {
    pub name: Seq<char>,
    pub address: Seq<char>,
    pub connection_type: ConnectionType,
    pub port: u16,
    pub vendor_id: Seq<char>,
    pub product_id: Seq<char>,
    pub id: Seq<char>,
    pub protocol: Protocol,
    pub status: Status,
}

/// A camera that the system has validated: its identity and how to reach it.
#[derive(Clone)]
pub struct CameraInfo {
    name: String,
    address: String,
    connection_type: ConnectionType,
    port: u16,
    vendor_id: String,
    product_id: String,
    id: String,
    protocol: Protocol,
    status: Status,
}

impl View for CameraInfo {
    type V = CameraInfoView;

    closed spec fn view(&self) -> CameraInfoView {
        CameraInfoView {
            name: self.name@,
            address: self.address@,
            connection_type: self.connection_type,
            port: self.port,
            vendor_id: self.vendor_id@,
            product_id: self.product_id@,
            id: self.id@,
            protocol: self.protocol,
            status: self.status,
        }
    }
}

impl CameraInfo {
    /// A new record of a USB camera that is not streaming yet.
    pub fn new(
        name: &String,
        address: &String,
        connection_type: ConnectionType,
        port: u16,
        vendor_id: &String,
        product_id: &String,
        id: String,
    ) -> (r: CameraInfo)
        ensures
            r@ == (CameraInfoView {
                name: name@,
                address: address@,
                connection_type,
                port,
                vendor_id: vendor_id@,
                product_id: product_id@,
                id: id@,
                protocol: Protocol::USB,
                status: Status::OFFLINE,
            }),
    {
        CameraInfo {
            name: name.clone(),
            address: address.clone(),
            connection_type,
            port,
            vendor_id: vendor_id.clone(),
            product_id: product_id.clone(),
            id,
            protocol: Protocol::USB,
            status: Status::OFFLINE,
        }
    }

    /// Replaces the camera's id; nothing else changes.
    pub fn update_id(&mut self, id: String)
        ensures
            final(self)@ == (CameraInfoView { id: id@, ..old(self)@ }),
    {
        self.id = id
    }

    /// The camera's id.
    pub fn g_id(&self) -> (r: String)
        ensures
            r@ == self@.id,
    {
        self.id.clone()
    }

    /// The name of the camera's connection type: `SSH`, `RTSP` or `HARD`.
    pub fn g_connection_type(&self) -> (r: String)
        ensures
            r@ == connection_type_name(self@.connection_type),
    {
        let retval: String = match self.connection_type {
            ConnectionType::SSH => String::from_str("SSH"),
            ConnectionType::RTSP => String::from_str("RTSP"),
            ConnectionType::HARD => String::from_str("HARD"),
        };
        retval
    }
}

impl IdInformation for CameraInfo {
    fn g_vendor_id(&self) -> (r: String)
        ensures
            r@ == self@.vendor_id,
    {
        self.vendor_id.clone()
    }

    fn g_product_id(&self) -> (r: String)
        ensures
            r@ == self@.product_id,
    {
        self.product_id.clone()
    }

    fn g_name(&self) -> (r: String)
        ensures
            r@ == self@.name,
    {
        self.name.clone()
    }
}

} // verus!
