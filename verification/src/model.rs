//! The data that the service keeps and the requests that change it.

#[allow(unused_imports)]
use crate::text::texts;
use vstd::prelude::*;

verus! {

/// A line of a session's log.
#[derive(Debug)]
pub struct EventEntry {
    /// When it was written, in seconds, in decimal.
    pub timestamp: String,
    /// What kind of event it is.
    pub kind: String,
    /// What happened.
    pub message: String,
}

/// The contents of an [`EventEntry`].
#[verifier::ext_equal]
pub struct EventView {
    /// When it was written.
    pub timestamp: Seq<char>,
    /// What kind of event it is.
    pub kind: Seq<char>,
    /// What happened.
    pub message: Seq<char>,
}

impl View for EventEntry {
    type V = EventView;

    open spec fn view(&self) -> EventView {
        EventView { timestamp: self.timestamp@, kind: self.kind@, message: self.message@ }
    }
}

impl Clone for EventEntry {
    fn clone(&self) -> (r: Self)
        ensures
            r@ == self@,
    {
        EventEntry {
            timestamp: self.timestamp.clone(),
            kind: self.kind.clone(),
            message: self.message.clone(),
        }
    }
}

/// A fault that the truck reported.
#[derive(Debug)]
pub struct FaultCode {
    /// Suspect parameter number.
    pub spn: u32,
    /// Failure mode identifier.
    pub fmi: u8,
    /// The unit that reported it.
    pub source: String,
    /// What it means.
    pub description: String,
    /// Whether it is present now.
    pub active: bool,
    /// How often it occurred.
    pub count: u8,
}

/// The contents of a [`FaultCode`].
#[verifier::ext_equal]
pub struct FaultView {
    /// Suspect parameter number.
    pub spn: u32,
    /// Failure mode identifier.
    pub fmi: u8,
    /// The unit that reported it.
    pub source: Seq<char>,
    /// What it means.
    pub description: Seq<char>,
    /// Whether it is present now.
    pub active: bool,
    /// How often it occurred.
    pub count: u8,
}

impl View for FaultCode {
    type V = FaultView;

    open spec fn view(&self) -> FaultView {
        FaultView {
            spn: self.spn,
            fmi: self.fmi,
            source: self.source@,
            description: self.description@,
            active: self.active,
            count: self.count,
        }
    }
}

impl Clone for FaultCode {
    fn clone(&self) -> (r: Self)
        ensures
            r@ == self@,
    {
        FaultCode {
            spn: self.spn,
            fmi: self.fmi,
            source: self.source.clone(),
            description: self.description.clone(),
            active: self.active,
            count: self.count,
        }
    }
}

/// What is known of the truck.
#[derive(Debug)]
pub struct TruckInfo {
    /// Vehicle identification number.
    pub vin: String,
    /// Maker.
    pub make: String,
    /// Model.
    pub model: String,
    /// Model year.
    pub year: u16,
    /// Engine.
    pub engine: String,
    /// Distance driven, where known.
    pub odometer: Option<u32>,
}

/// The contents of a [`TruckInfo`].
#[verifier::ext_equal]
pub struct TruckView {
    /// Vehicle identification number.
    pub vin: Seq<char>,
    /// Maker.
    pub make: Seq<char>,
    /// Model.
    pub model: Seq<char>,
    /// Model year.
    pub year: u16,
    /// Engine.
    pub engine: Seq<char>,
    /// Distance driven, where known.
    pub odometer: Option<u32>,
}

impl View for TruckInfo {
    type V = TruckView;

    open spec fn view(&self) -> TruckView {
        TruckView {
            vin: self.vin@,
            make: self.make@,
            model: self.model@,
            year: self.year,
            engine: self.engine@,
            odometer: self.odometer,
        }
    }
}

impl Clone for TruckInfo {
    fn clone(&self) -> (r: Self)
        ensures
            r@ == self@,
    {
        TruckInfo {
            vin: self.vin.clone(),
            make: self.make.clone(),
            model: self.model.clone(),
            year: self.year,
            engine: self.engine.clone(),
            odometer: self.odometer,
        }
    }
}

/// The contents of a truck record that may be missing.
pub open spec fn truck_view(t: Option<TruckInfo>) -> Option<TruckView> {
    match t {
        Some(t) => Some(t@),
        None => None,
    }
}

/// A copy of a truck record that may be missing.
pub fn copy_truck(t: &Option<TruckInfo>) -> (r: Option<TruckInfo>)
    ensures
        truck_view(r) == truck_view(*t),
{
    match t {
        Some(t) => Some(t.clone()),
        None => None,
    }
}

/// Readings of the running truck. Each is the bit pattern of a 32-bit
/// floating-point number: the service hands readings on and computes with none.
#[derive(Clone, Copy, Debug)]
pub struct LiveData {
    /// Engine speed.
    pub engine_rpm: Option<u32>,
    /// Coolant temperature.
    pub coolant_temp: Option<u32>,
    /// Oil pressure.
    pub oil_pressure: Option<u32>,
    /// Boost pressure.
    pub boost_pressure: Option<u32>,
    /// Road speed.
    pub vehicle_speed: Option<u32>,
    /// Battery voltage.
    pub battery_voltage: Option<u32>,
}

/// A driver's session with the technicians.
#[derive(Debug)]
pub struct SessionState {
    /// Its id.
    pub session_id: String,
    /// The organisation that the truck belongs to.
    pub org_id: String,
    /// What the driver's device shows to be let in.
    pub driver_token: String,
    /// What a technician's console shows to be let in.
    pub tech_token: String,
    /// How the session stands.
    pub status: String,
    /// What the driver is told to do.
    pub command: String,
    /// Whether the driver is to acknowledge.
    pub requires_ack: bool,
    /// Whether the driver has acknowledged.
    pub customer_ack: bool,
    /// What the driver answered.
    pub customer_message: String,
    /// How urgent the command is.
    pub priority: String,
    /// Whether the command is shown on top of everything.
    pub show_modal: bool,
    /// Whether the diagnostic adapter is connected.
    pub nexiq_connected: bool,
    /// Which adapter it is.
    pub adapter_name: String,
    /// The faults that the truck reported.
    pub fault_codes: Vec<FaultCode>,
    /// What is known of the truck.
    pub truck_info: Option<TruckInfo>,
    /// Its latest readings.
    pub live_data: Option<LiveData>,
    /// Whether the driver has asked for service.
    pub service_requested: bool,
    /// When, in seconds, in decimal.
    pub service_request_time: String,
    /// What service was asked for.
    pub service_type: String,
    /// Where the tablet's tunnel is reached.
    pub tablet_ws_url: String,
    /// Where the remote desktop is reached.
    pub guac_url: String,
    /// What happened, oldest first.
    pub event_log: Vec<EventEntry>,
    /// The organisations whose technicians have joined.
    pub connected_techs: Vec<String>,
    /// When anything happened last, in seconds.
    pub last_activity: u64,
}

/// The contents of a [`SessionState`].
#[verifier::ext_equal]
pub struct SessionView {
    /// Its id.
    pub session_id: Seq<char>,
    /// The organisation that the truck belongs to.
    pub org_id: Seq<char>,
    /// What the driver's device shows to be let in.
    pub driver_token: Seq<char>,
    /// What a technician's console shows to be let in.
    pub tech_token: Seq<char>,
    /// How the session stands.
    pub status: Seq<char>,
    /// What the driver is told to do.
    pub command: Seq<char>,
    /// Whether the driver is to acknowledge.
    pub requires_ack: bool,
    /// Whether the driver has acknowledged.
    pub customer_ack: bool,
    /// What the driver answered.
    pub customer_message: Seq<char>,
    /// How urgent the command is.
    pub priority: Seq<char>,
    /// Whether the command is shown on top of everything.
    pub show_modal: bool,
    /// Whether the diagnostic adapter is connected.
    pub nexiq_connected: bool,
    /// Which adapter it is.
    pub adapter_name: Seq<char>,
    /// The faults that the truck reported.
    pub fault_codes: Seq<FaultView>,
    /// What is known of the truck.
    pub truck_info: Option<TruckView>,
    /// Its latest readings.
    pub live_data: Option<LiveData>,
    /// Whether the driver has asked for service.
    pub service_requested: bool,
    /// When.
    pub service_request_time: Seq<char>,
    /// What service was asked for.
    pub service_type: Seq<char>,
    /// Where the tablet's tunnel is reached.
    pub tablet_ws_url: Seq<char>,
    /// Where the remote desktop is reached.
    pub guac_url: Seq<char>,
    /// What happened, oldest first.
    pub event_log: Seq<EventView>,
    /// The organisations whose technicians have joined.
    pub connected_techs: Seq<Seq<char>>,
    /// When anything happened last.
    pub last_activity: u64,
}

/// The contents of a list of faults.
pub open spec fn fault_views(v: Seq<FaultCode>) -> Seq<FaultView> {
    v.map_values(|f: FaultCode| f@)
}

/// The contents of a log.
pub open spec fn event_views(v: Seq<EventEntry>) -> Seq<EventView> {
    v.map_values(|e: EventEntry| e@)
}

impl View for SessionState {
    type V = SessionView;

    open spec fn view(&self) -> SessionView {
        SessionView {
            session_id: self.session_id@,
            org_id: self.org_id@,
            driver_token: self.driver_token@,
            tech_token: self.tech_token@,
            status: self.status@,
            command: self.command@,
            requires_ack: self.requires_ack,
            customer_ack: self.customer_ack,
            customer_message: self.customer_message@,
            priority: self.priority@,
            show_modal: self.show_modal,
            nexiq_connected: self.nexiq_connected,
            adapter_name: self.adapter_name@,
            fault_codes: fault_views(self.fault_codes@),
            truck_info: truck_view(self.truck_info),
            live_data: self.live_data,
            service_requested: self.service_requested,
            service_request_time: self.service_request_time@,
            service_type: self.service_type@,
            tablet_ws_url: self.tablet_ws_url@,
            guac_url: self.guac_url@,
            event_log: event_views(self.event_log@),
            connected_techs: texts(self.connected_techs@),
            last_activity: self.last_activity,
        }
    }
}

/// A technician who has logged in.
#[derive(Debug)]
pub struct TechSession {
    /// What the technician shows to be let in.
    pub tech_auth_token: String,
    /// The technician's organisation.
    pub org_id: String,
    /// Whether it is the operator of the service.
    pub is_diesellynk: bool,
    /// When the technician logged in, in seconds.
    pub created_at: u64,
    /// When the technician was last active, in seconds.
    pub last_seen: u64,
}

/// The contents of a [`TechSession`].
#[verifier::ext_equal]
pub struct TechView {
    /// What the technician shows to be let in.
    pub tech_auth_token: Seq<char>,
    /// The technician's organisation.
    pub org_id: Seq<char>,
    /// Whether it is the operator of the service.
    pub is_diesellynk: bool,
    /// When the technician logged in.
    pub created_at: u64,
    /// When the technician was last active.
    pub last_seen: u64,
}

impl View for TechSession {
    type V = TechView;

    open spec fn view(&self) -> TechView {
        TechView {
            tech_auth_token: self.tech_auth_token@,
            org_id: self.org_id@,
            is_diesellynk: self.is_diesellynk,
            created_at: self.created_at,
            last_seen: self.last_seen,
        }
    }
}

impl Clone for TechSession {
    fn clone(&self) -> (r: Self)
        ensures
            r@ == self@,
    {
        TechSession {
            tech_auth_token: self.tech_auth_token.clone(),
            org_id: self.org_id.clone(),
            is_diesellynk: self.is_diesellynk,
            created_at: self.created_at,
            last_seen: self.last_seen,
        }
    }
}

/// An administrator who has logged in.
#[derive(Debug)]
pub struct AdminSession {
    /// What the administrator shows to be let in.
    pub token: String,
    /// When the administrator logged in, in seconds.
    pub created_at: u64,
}

/// The contents of an [`AdminSession`].
#[verifier::ext_equal]
pub struct AdminView {
    /// What the administrator shows to be let in.
    pub token: Seq<char>,
    /// When the administrator logged in.
    pub created_at: u64,
}

impl View for AdminSession {
    type V = AdminView;

    open spec fn view(&self) -> AdminView {
        AdminView { token: self.token@, created_at: self.created_at }
    }
}

/// An organisation that may log in.
#[derive(Debug)]
pub struct Org {
    /// Its password.
    pub password: String,
    /// Its name for people.
    pub display_name: String,
    /// Whether it is the operator of the service.
    pub is_diesellynk: bool,
}

/// The contents of an [`Org`].
#[verifier::ext_equal]
pub struct OrgView {
    /// Its password.
    pub password: Seq<char>,
    /// Its name for people.
    pub display_name: Seq<char>,
    /// Whether it is the operator of the service.
    pub is_diesellynk: bool,
}

impl View for Org {
    type V = OrgView;

    open spec fn view(&self) -> OrgView {
        OrgView {
            password: self.password@,
            display_name: self.display_name@,
            is_diesellynk: self.is_diesellynk,
        }
    }
}

/// A technician's change to a session.
#[derive(Debug)]
pub struct UpdateRequest {
    /// The session's technician token.
    pub tech_token: String,
    /// How the session now stands.
    pub status: String,
    /// What the driver is told to do.
    pub command: String,
    /// Whether the driver is to acknowledge.
    pub requires_ack: bool,
    /// How urgent the command is.
    pub priority: String,
    /// Whether the command is shown on top of everything.
    pub show_modal: bool,
}

/// A driver's answer.
#[derive(Debug)]
pub struct CustomerReplyRequest {
    /// The session's driver token.
    pub driver_token: String,
    /// Whether the driver acknowledges.
    pub customer_ack: bool,
    /// What the driver says.
    pub customer_message: String,
}

/// A driver's call for service.
#[derive(Debug)]
pub struct ServiceRequest {
    /// The session's driver token.
    pub driver_token: String,
    /// What service is asked for.
    pub service_type: String,
}

/// A report of the diagnostic adapter.
#[derive(Debug)]
pub struct NexiqStatusRequest {
    /// The session's driver token.
    pub driver_token: String,
    /// Whether the adapter is connected.
    pub connected: bool,
    /// Which adapter it is.
    pub adapter_name: String,
    /// What it read of the truck.
    pub truck_info: Option<TruckInfo>,
    /// The faults that it read.
    pub fault_codes: Option<Vec<FaultCode>>,
    /// The readings that it took.
    pub live_data: Option<LiveData>,
}

/// A truck record that the driver typed in.
#[derive(Debug)]
pub struct ManualTruckInfoRequest {
    /// The session's driver token.
    pub driver_token: String,
    /// Vehicle identification number.
    pub vin: String,
    /// Maker.
    pub make: String,
    /// Model.
    pub model: String,
    /// Model year.
    pub year: u16,
    /// Engine.
    pub engine: String,
    /// Distance driven, where known.
    pub odometer: Option<u32>,
}

} // verus!
