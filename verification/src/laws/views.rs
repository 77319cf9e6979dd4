//! What is said of a value's contents is said of the value itself, field by field.

#[allow(unused_imports)]
use crate::admin::{admin_summary_views, org_summary_views, AdminSummary, OrgSummary};
#[allow(unused_imports)]
use crate::guac::{revocation_view, GuacConfig, Revocation};
#[allow(unused_imports)]
use crate::http::Target;
#[allow(unused_imports)]
use crate::json::{Member, MemberView};
#[allow(unused_imports)]
use crate::model::{
    event_views, fault_views, truck_view, AdminSession, EventEntry, FaultCode, Org, SessionState,
    TechSession, TruckInfo,
};
#[allow(unused_imports)]
use crate::registry::PublicSession;
#[allow(unused_imports)]
use crate::reply::Reply;
#[allow(unused_imports)]
use crate::store::{seed_views, OrgSeed};
#[allow(unused_imports)]
use crate::technician::{summary_views, SessionSummary};
#[allow(unused_imports)]
use crate::text::texts;
use vstd::prelude::*;

verus! {

/// A list is seen item by item, in order, and no item is left out.
pub proof fn lists_are_seen_item_by_item(
    t: Seq<String>,
    f: Seq<FaultCode>,
    e: Seq<EventEntry>,
    s: Seq<SessionSummary>,
    a: Seq<AdminSummary>,
    o: Seq<OrgSummary>,
    d: Seq<OrgSeed>,
)
    ensures
        texts(t).len() == t.len() && forall|i: int|
            0 <= i < t.len() ==> #[trigger] texts(t)[i] == t[i]@,
        fault_views(f).len() == f.len() && forall|i: int|
            0 <= i < f.len() ==> #[trigger] fault_views(f)[i] == f[i]@,
        event_views(e).len() == e.len() && forall|i: int|
            0 <= i < e.len() ==> #[trigger] event_views(e)[i] == e[i]@,
        summary_views(s).len() == s.len() && forall|i: int|
            0 <= i < s.len() ==> #[trigger] summary_views(s)[i] == s[i]@,
        admin_summary_views(a).len() == a.len() && forall|i: int|
            0 <= i < a.len() ==> #[trigger] admin_summary_views(a)[i] == a[i]@,
        org_summary_views(o).len() == o.len() && forall|i: int|
            0 <= i < o.len() ==> #[trigger] org_summary_views(o)[i] == o[i]@,
        seed_views(d).len() == d.len() && forall|i: int|
            0 <= i < d.len() ==> #[trigger] seed_views(d)[i] == d[i]@,
{
}

/// What may be missing is seen as it is.
pub proof fn missing_values_are_seen_as_missing(t: Option<TruckInfo>, r: Option<Revocation>)
    ensures
        truck_view(t) is Some <==> t is Some,
        t matches Some(x) ==> truck_view(t) == Some(x@),
        revocation_view(r) is Some <==> r is Some,
        r matches Some(x) ==> revocation_view(r) == Some(x@),
{
}

/// A member is seen as it is.
pub proof fn member_is_seen_whole(x: Member)
    ensures
        x is NoDocument <==> x@ is NoDocument,
        x is Absent <==> x@ is Absent,
        x matches Member::Text(t) ==> x@ == MemberView::Text(t@),
{
}

/// An answer is seen in every field.
pub proof fn reply_is_seen_whole(x: Reply)
    ensures
        x@.status == x.status,
        x@.ok == x.body.ok,
        x@.message == x.body.message@,
{
}

/// An event is seen in every field.
pub proof fn event_is_seen_whole(x: EventEntry)
    ensures
        x@.timestamp == x.timestamp@,
        x@.kind == x.kind@,
        x@.message == x.message@,
{
}

/// A fault is seen in every field.
pub proof fn fault_is_seen_whole(x: FaultCode)
    ensures
        x@.source == x.source@,
        x@.description == x.description@,
        x@.spn == x.spn,
        x@.fmi == x.fmi,
        x@.active == x.active,
        x@.count == x.count,
{
}

/// A truck is seen in every field.
pub proof fn truck_is_seen_whole(x: TruckInfo)
    ensures
        x@.vin == x.vin@,
        x@.make == x.make@,
        x@.model == x.model@,
        x@.engine == x.engine@,
        x@.year == x.year,
        x@.odometer == x.odometer,
{
}

/// A session is seen in every field.
pub proof fn session_is_seen_whole(x: SessionState)
    ensures
        x@.session_id == x.session_id@,
        x@.org_id == x.org_id@,
        x@.status == x.status@,
        x@.command == x.command@,
        x@.customer_message == x.customer_message@,
        x@.priority == x.priority@,
        x@.adapter_name == x.adapter_name@,
        x@.service_request_time == x.service_request_time@,
        x@.service_type == x.service_type@,
        x@.tablet_ws_url == x.tablet_ws_url@,
        x@.guac_url == x.guac_url@,
        x@.driver_token == x.driver_token@,
        x@.tech_token == x.tech_token@,
        x@.requires_ack == x.requires_ack,
        x@.customer_ack == x.customer_ack,
        x@.show_modal == x.show_modal,
        x@.nexiq_connected == x.nexiq_connected,
        x@.live_data == x.live_data,
        x@.service_requested == x.service_requested,
        x@.last_activity == x.last_activity,
        x@.fault_codes == fault_views(x.fault_codes@),
        x@.truck_info == truck_view(x.truck_info),
        x@.event_log == event_views(x.event_log@),
        x@.connected_techs == texts(x.connected_techs@),
{
}

/// A session that is shown is seen in every field.
pub proof fn shown_session_is_seen_whole(x: PublicSession)
    ensures
        x@.session_id == x.session_id@,
        x@.org_id == x.org_id@,
        x@.status == x.status@,
        x@.command == x.command@,
        x@.customer_message == x.customer_message@,
        x@.priority == x.priority@,
        x@.adapter_name == x.adapter_name@,
        x@.service_request_time == x.service_request_time@,
        x@.service_type == x.service_type@,
        x@.tablet_ws_url == x.tablet_ws_url@,
        x@.guac_url == x.guac_url@,
        x@.requires_ack == x.requires_ack,
        x@.customer_ack == x.customer_ack,
        x@.show_modal == x.show_modal,
        x@.nexiq_connected == x.nexiq_connected,
        x@.live_data == x.live_data,
        x@.service_requested == x.service_requested,
        x@.last_activity == x.last_activity,
        x@.fault_codes == fault_views(x.fault_codes@),
        x@.truck_info == truck_view(x.truck_info),
        x@.event_log == event_views(x.event_log@),
        x@.connected_techs == texts(x.connected_techs@),
{
}

/// A technician is seen in every field.
pub proof fn technician_is_seen_whole(x: TechSession)
    ensures
        x@.tech_auth_token == x.tech_auth_token@,
        x@.org_id == x.org_id@,
        x@.is_diesellynk == x.is_diesellynk,
        x@.created_at == x.created_at,
        x@.last_seen == x.last_seen,
{
}

/// An administrator is seen in every field.
pub proof fn administrator_is_seen_whole(x: AdminSession)
    ensures
        x@.token == x.token@,
        x@.created_at == x.created_at,
{
}

/// An organisation is seen in every field.
pub proof fn organisation_is_seen_whole(x: Org)
    ensures
        x@.password == x.password@,
        x@.display_name == x.display_name@,
        x@.is_diesellynk == x.is_diesellynk,
{
}

/// An organisation to begin with is seen in every field.
pub proof fn seed_is_seen_whole(x: OrgSeed)
    ensures
        x@.org_id == x.org_id@,
        x@.display_name == x.display_name@,
        x@.password == x.password@,
        x@.is_diesellynk == x.is_diesellynk,
{
}

/// A session in brief is seen in every field.
pub proof fn summary_is_seen_whole(x: SessionSummary)
    ensures
        x@.session_id == x.session_id@,
        x@.org_id == x.org_id@,
        x@.status == x.status@,
        x@.service_type == x.service_type@,
        x@.service_request_time == x.service_request_time@,
        x@.adapter_name == x.adapter_name@,
        x@.service_requested == x.service_requested,
        x@.nexiq_connected == x.nexiq_connected,
        x@.fault_code_count == x.fault_code_count,
        x@.connected_tech_count == x.connected_tech_count,
        x@.truck_info == truck_view(x.truck_info),
{
}

/// A session in brief, for administrators, is seen in every field.
pub proof fn admin_summary_is_seen_whole(x: AdminSummary)
    ensures
        x@.session_id == x.session_id@,
        x@.org_id == x.org_id@,
        x@.status == x.status@,
        x@.service_type == x.service_type@,
        x@.service_request_time == x.service_request_time@,
        x@.tablet_ws_url == x.tablet_ws_url@,
        x@.service_requested == x.service_requested,
        x@.nexiq_connected == x.nexiq_connected,
        x@.fault_code_count == x.fault_code_count,
        x@.connected_tech_count == x.connected_tech_count,
        x@.truck_info == truck_view(x.truck_info),
{
}

/// An organisation in brief is seen in every field.
pub proof fn organisation_summary_is_seen_whole(x: OrgSummary)
    ensures
        x@.org_id == x.org_id@,
        x@.display_name == x.display_name@,
        x@.is_diesellynk == x.is_diesellynk,
        x@.session_count == x.session_count,
        x@.active_techs == x.active_techs,
        x@.password_set == x.password_set,
{
}

/// The gateway is seen in every field.
pub proof fn gateway_is_seen_whole(x: GuacConfig)
    ensures
        x@.base == x.base@,
        x@.user == x.user@,
        x@.password == x.password@,
{
}

/// A revocation is seen in every field.
pub proof fn revocation_is_seen_whole(x: Revocation)
    ensures
        x@.token_url == x.token_url@,
        x@.token_body == x.token_body@,
        x@.delete_url == x.delete_url@,
{
}

/// A target is seen in every field.
pub proof fn target_is_seen_whole(x: Target)
    ensures
        x@.host == x.host@,
        x@.path == x.path@,
        x@.https == x.https,
        x@.port == x.port,
{
}

} // verus!
