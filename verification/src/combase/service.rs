//! The reference communication services: a channel's name, protocol and number,
//! its running state and status, and, for `ComBaseImpl`, the point manager through
//! which its points are read. A channel is identified by its number.

use vstd::prelude::*;
use crate::combase::data_types::ChannelStatus;
use crate::combase::point_cache::{PointData, PointDataView, data_map, ids_distinct, views_of};
use crate::combase::point_manager::{
    PointManagerStats, UniversalPointConfig, UniversalPointManager, cached_among, enabled_among, map_of_points,
    point_ids_distinct,
};
use crate::combase::stats::current_time;
use crate::combase::telemetry::TelemetryType;
use crate::error::ComSrvError;
use crate::param_map::ParamMap;
use crate::text::{decimal_of, string_of, u64_to_decimal};

verus! {

/// The text of a boolean, as `bool::to_string` writes it.
pub open spec fn bool_text(b: bool) -> Seq<char> {
    if b {
        "true"@
    } else {
        "false"@
    }
}

/// The text of a boolean.
fn bool_string(b: bool) -> (r: String)
    ensures
        r@ == bool_text(b),
{
    if b {
        string_of("true")
    } else {
        string_of("false")
    }
}

/// The channel status after a start: connected and without error.
pub open spec fn started_status(before: ChannelStatus, after: ChannelStatus) -> bool {
    &&& after.id == before.id
    &&& after.connected
    &&& after.last_response_time_bits == before.last_response_time_bits
    &&& after.last_error@ == Seq::<char>::empty()
}

/// The channel status after a stop: disconnected, the rest kept.
pub open spec fn stopped_status(before: ChannelStatus, after: ChannelStatus) -> bool {
    &&& after.id == before.id
    &&& !after.connected
    &&& after.last_response_time_bits == before.last_response_time_bits
    &&& after.last_error == before.last_error
}

/// The channel status after an error: the error recorded, the rest kept.
pub open spec fn error_status(before: ChannelStatus, after: ChannelStatus, message: Seq<char>) -> bool {
    &&& after.id == before.id
    &&& after.connected == before.connected
    &&& after.last_response_time_bits == before.last_response_time_bits
    &&& after.last_error@ == message
}

/// Marks a status started; the update time becomes now.
fn mark_started(status: &mut ChannelStatus)
    ensures
        started_status(*old(status), *final(status)),
{
    status.connected = true;
    status.last_update_time = current_time();
    status.last_error = String::new();
}

/// Marks a status stopped; the update time becomes now.
fn mark_stopped(status: &mut ChannelStatus)
    ensures
        stopped_status(*old(status), *final(status)),
{
    status.connected = false;
    status.last_update_time = current_time();
}

/// Records an error in a status; the update time becomes now.
fn mark_error(status: &mut ChannelStatus, error_message: &str)
    ensures
        error_status(*old(status), *final(status), error_message@),
{
    status.last_error = string_of(error_message);
    status.last_update_time = current_time();
}

/// The diagnostics every service gives, but for the response time and the update
/// time, which are written outside the library.
pub open spec fn base_diagnostics(name: Seq<char>, protocol: Seq<char>, running: bool, status: ChannelStatus) -> Map<
    Seq<char>,
    Seq<char>,
> {
    map![
        "service_name"@ => name,
        "protocol_type"@ => protocol,
        "running"@ => bool_text(running),
        "connected"@ => bool_text(status.connected),
        "last_error"@ => status.last_error@,
    ]
}

/// The default protocol service: a channel that starts and stops and has no points.
#[derive(Debug)]
pub struct DefaultProtocol {
    name: String,
    protocol_type: String,
    channel_id: u16,
    running: bool,
    status: ChannelStatus,
}

impl DefaultProtocol {
    /// The service's name, protocol and channel number.
    pub closed spec fn identity(&self) -> (Seq<char>, Seq<char>, u16) {
        (self.name@, self.protocol_type@, self.channel_id)
    }

    /// Whether the service runs.
    pub closed spec fn runs(&self) -> bool {
        self.running
    }

    /// The channel status.
    pub closed spec fn current_status(&self) -> ChannelStatus {
        self.status
    }

    /// A stopped service whose status is that of a new channel with its number.
    pub fn new(name: &str, protocol_type: &str, channel_id: u16) -> (p: Self)
        ensures
            p.identity() == (name@, protocol_type@, channel_id),
            !p.runs(),
            p.current_status().id@ == decimal_of(channel_id as nat),
            !p.current_status().connected,
            p.current_status().last_response_time_bits == 0,
            p.current_status().last_error@ == Seq::<char>::empty(),
    {
        let id = u64_to_decimal(channel_id as u64);
        DefaultProtocol {
            name: string_of(name),
            protocol_type: string_of(protocol_type),
            channel_id,
            running: false,
            status: ChannelStatus::new(id.as_str()),
        }
    }

    /// Records an error in the status.
    pub fn set_error(&mut self, error_message: &str)
        ensures
            final(self).identity() == old(self).identity(),
            final(self).runs() == old(self).runs(),
            error_status(old(self).current_status(), final(self).current_status(), error_message@),
    {
        mark_error(&mut self.status, error_message);
    }

    /// The service's name.
    pub fn name(&self) -> (r: &str)
        ensures
            r@ == self.identity().0,
    {
        self.name.as_str()
    }

    /// The channel number as text.
    pub fn channel_id(&self) -> (r: String)
        ensures
            r@ == decimal_of(self.identity().2 as nat),
    {
        u64_to_decimal(self.channel_id as u64)
    }

    /// The protocol.
    pub fn protocol_type(&self) -> (r: &str)
        ensures
            r@ == self.identity().1,
    {
        self.protocol_type.as_str()
    }

    /// The parameters: name, protocol and channel number.
    pub fn get_parameters(&self) -> (p: ParamMap)
        ensures
            p.wf(),
            p@ == map![
                "name"@ => self.identity().0,
                "protocol"@ => self.identity().1,
                "channel_id"@ => decimal_of(self.identity().2 as nat),
            ],
    {
        let mut params = ParamMap::new();
        params.insert(string_of("name"), self.name.clone());
        params.insert(string_of("protocol"), self.protocol_type.clone());
        params.insert(string_of("channel_id"), u64_to_decimal(self.channel_id as u64));
        params
    }

    /// Whether the service runs.
    pub fn is_running(&self) -> (r: bool)
        ensures
            r == self.runs(),
    {
        self.running
    }

    /// Starts the service: it runs, and its channel is connected without error.
    pub fn start(&mut self) -> (r: Result<(), ComSrvError>)
        ensures
            r is Ok,
            final(self).identity() == old(self).identity(),
            final(self).runs(),
            started_status(old(self).current_status(), final(self).current_status()),
    {
        self.running = true;
        mark_started(&mut self.status);
        Ok(())
    }

    /// Stops the service: it no longer runs, and its channel is disconnected.
    pub fn stop(&mut self) -> (r: Result<(), ComSrvError>)
        ensures
            r is Ok,
            final(self).identity() == old(self).identity(),
            !final(self).runs(),
            stopped_status(old(self).current_status(), final(self).current_status()),
    {
        self.running = false;
        mark_stopped(&mut self.status);
        Ok(())
    }

    /// The channel status.
    pub fn status(&self) -> (r: &ChannelStatus)
        ensures
            *r == self.current_status(),
    {
        &self.status
    }

    /// Replaces the channel status.
    pub fn update_status(&mut self, new_status: ChannelStatus) -> (r: Result<(), ComSrvError>)
        ensures
            r is Ok,
            final(self).identity() == old(self).identity(),
            final(self).runs() == old(self).runs(),
            final(self).current_status() == new_status,
    {
        self.status = new_status;
        Ok(())
    }

    /// The points of the service: none.
    pub fn get_all_points(&self) -> (r: Vec<PointData>)
        ensures
            r@.len() == 0,
    {
        Vec::new()
    }

    /// Reading a point is not supported.
    pub fn read_point(&self, point_id: &str) -> (r: Result<PointData, ComSrvError>)
        ensures
            r matches Err(ComSrvError::InvalidOperation(m)) && m@ == "Base implementation does not support point reading"@,
    {
        Err(ComSrvError::InvalidOperation(string_of("Base implementation does not support point reading")))
    }

    /// Writing a point is not supported.
    pub fn write_point(&mut self, point_id: &str, value: &str) -> (r: Result<(), ComSrvError>)
        ensures
            r matches Err(ComSrvError::InvalidOperation(m)) && m@ == "Base implementation does not support point writing"@,
            *final(self) == *old(self),
    {
        Err(ComSrvError::InvalidOperation(string_of("Base implementation does not support point writing")))
    }

    /// The diagnostics: name, protocol, running, connected and last error.
    pub fn get_diagnostics(&self) -> (d: ParamMap)
        ensures
            d.wf(),
            d@ == base_diagnostics(self.identity().0, self.identity().1, self.runs(), self.current_status()),
    {
        let mut d = ParamMap::new();
        d.insert(string_of("service_name"), self.name.clone());
        d.insert(string_of("protocol_type"), self.protocol_type.clone());
        d.insert(string_of("running"), bool_string(self.running));
        d.insert(string_of("connected"), bool_string(self.status.connected));
        d.insert(string_of("last_error"), self.status.last_error.clone());
        d
    }
}

/// The diagnostics a service with a point manager adds: the manager's counts.
pub open spec fn point_diagnostics(m: Map<Seq<char>, Seq<char>>, stats: PointManagerStats) -> Map<Seq<char>, Seq<char>> {
    m.insert("total_points"@, decimal_of(stats.total_points as nat)).insert(
        "enabled_points"@,
        decimal_of(stats.enabled_points as nat),
    ).insert("read_operations"@, decimal_of(stats.read_operations as nat)).insert(
        "write_operations"@,
        decimal_of(stats.write_operations as nat),
    ).insert("validation_errors"@, decimal_of(stats.validation_errors as nat))
}

/// The communication service with an optional point manager, through which its
/// points are read.
#[derive(Debug)]
pub struct ComBaseImpl {
    name: String,
    protocol_type: String,
    channel_id: u16,
    running: bool,
    status: ChannelStatus,
    point_manager: Option<UniversalPointManager>,
}

impl ComBaseImpl {
    /// The service's name, protocol and channel number.
    pub closed spec fn identity(&self) -> (Seq<char>, Seq<char>, u16) {
        (self.name@, self.protocol_type@, self.channel_id)
    }

    /// Whether the service runs.
    pub closed spec fn runs(&self) -> bool {
        self.running
    }

    /// The channel status.
    pub closed spec fn current_status(&self) -> ChannelStatus {
        self.status
    }

    /// The point manager, if the service has one.
    pub closed spec fn manager(&self) -> Option<UniversalPointManager> {
        self.point_manager
    }

    /// The point manager, if any, is well formed.
    pub closed spec fn wf(&self) -> bool {
        match self.point_manager {
            Some(pm) => pm.wf(),
            None => true,
        }
    }

    /// A stopped service with a point manager for its channel.
    pub fn new_with_point_manager(name: &str, protocol_type: &str, channel_id: u16) -> (s: Self)
        ensures
            s.wf(),
            s.identity() == (name@, protocol_type@, channel_id),
            !s.runs(),
            s.current_status().id@ == decimal_of(channel_id as nat),
            !s.current_status().connected,
            s.current_status().last_error@ == Seq::<char>::empty(),
            s.manager() matches Some(pm) && pm.channel() == decimal_of(channel_id as nat) && pm.configs()
                == Map::<u32, UniversalPointConfig>::empty() && pm.cached() == Map::<Seq<char>, PointDataView>::empty(),
    {
        let id = u64_to_decimal(channel_id as u64);
        let manager = UniversalPointManager::new(id.clone());
        ComBaseImpl {
            name: string_of(name),
            protocol_type: string_of(protocol_type),
            channel_id,
            running: false,
            status: ChannelStatus::new(id.as_str()),
            point_manager: Some(manager),
        }
    }

    /// A stopped service without a point manager.
    pub fn new(name: &str, protocol_type: &str, channel_id: u16) -> (s: Self)
        ensures
            s.wf(),
            s.identity() == (name@, protocol_type@, channel_id),
            !s.runs(),
            s.current_status().id@ == decimal_of(channel_id as nat),
            !s.current_status().connected,
            s.current_status().last_error@ == Seq::<char>::empty(),
            s.manager() is None,
    {
        let id = u64_to_decimal(channel_id as u64);
        ComBaseImpl {
            name: string_of(name),
            protocol_type: string_of(protocol_type),
            channel_id,
            running: false,
            status: ChannelStatus::new(id.as_str()),
            point_manager: None,
        }
    }

    /// Loads point configurations into the point manager; a service without one
    /// refuses.
    pub fn load_point_configs(&mut self, configs: Vec<UniversalPointConfig>) -> (r: Result<(), ComSrvError>)
        requires
            old(self).wf(),
        ensures
            final(self).wf(),
            final(self).identity() == old(self).identity(),
            final(self).runs() == old(self).runs(),
            final(self).current_status() == old(self).current_status(),
            match old(self).manager() {
                None => final(self).manager() is None && (r matches Err(ComSrvError::InvalidOperation(m))
                    && m@ == "No point manager available for loading point configurations"@),
                Some(before) => final(self).manager() matches Some(after) && UniversalPointManager::loaded(
                    before,
                    after,
                    configs@,
                    r,
                ),
            },
    {
        match &mut self.point_manager {
            Some(pm) => pm.load_points(configs),
            None => Err(ComSrvError::InvalidOperation(
                string_of("No point manager available for loading point configurations"),
            )),
        }
    }

    /// The point manager, if any.
    pub fn get_point_manager_ref(&self) -> (r: Option<&UniversalPointManager>)
        ensures
            match r {
                Some(pm) => self.manager() == Some(*pm),
                None => self.manager() is None,
            },
    {
        match &self.point_manager {
            Some(pm) => Some(pm),
            None => None,
        }
    }

    /// Whether the service has a point manager.
    pub fn has_point_manager(&self) -> (r: bool)
        ensures
            r == self.manager() is Some,
    {
        self.point_manager.is_some()
    }

    /// Records an error in the status.
    pub fn set_error(&mut self, error_message: &str)
        ensures
            final(self).identity() == old(self).identity(),
            final(self).runs() == old(self).runs(),
            final(self).manager() == old(self).manager(),
            final(self).wf() == old(self).wf(),
            error_status(old(self).current_status(), final(self).current_status(), error_message@),
    {
        mark_error(&mut self.status, error_message);
    }

    /// The service's name.
    pub fn name(&self) -> (r: &str)
        ensures
            r@ == self.identity().0,
    {
        self.name.as_str()
    }

    /// The channel number as text.
    pub fn channel_id(&self) -> (r: String)
        ensures
            r@ == decimal_of(self.identity().2 as nat),
    {
        u64_to_decimal(self.channel_id as u64)
    }

    /// The protocol.
    pub fn protocol_type(&self) -> (r: &str)
        ensures
            r@ == self.identity().1,
    {
        self.protocol_type.as_str()
    }

    /// The parameters: name, protocol, channel number, whether there is a point
    /// manager, and the manager's channel when there is one.
    pub fn get_parameters(&self) -> (p: ParamMap)
        ensures
            p.wf(),
            p@ == (match self.manager() {
                Some(pm) => map![
                    "name"@ => self.identity().0,
                    "protocol"@ => self.identity().1,
                    "channel_id"@ => decimal_of(self.identity().2 as nat),
                    "has_point_manager"@ => "true"@,
                    "point_manager_channel"@ => pm.channel(),
                ],
                None => map![
                    "name"@ => self.identity().0,
                    "protocol"@ => self.identity().1,
                    "channel_id"@ => decimal_of(self.identity().2 as nat),
                    "has_point_manager"@ => "false"@,
                ],
            }),
    {
        let mut params = ParamMap::new();
        params.insert(string_of("name"), self.name.clone());
        params.insert(string_of("protocol"), self.protocol_type.clone());
        params.insert(string_of("channel_id"), u64_to_decimal(self.channel_id as u64));
        params.insert(string_of("has_point_manager"), bool_string(self.point_manager.is_some()));
        match &self.point_manager {
            Some(pm) => {
                params.insert(string_of("point_manager_channel"), string_of(pm.channel_id()));
            },
            None => {},
        }
        params
    }

    /// Whether the service runs.
    pub fn is_running(&self) -> (r: bool)
        ensures
            r == self.runs(),
    {
        self.running
    }

    /// Starts the service: it runs, and its channel is connected without error.
    pub fn start(&mut self) -> (r: Result<(), ComSrvError>)
        ensures
            r is Ok,
            final(self).identity() == old(self).identity(),
            final(self).manager() == old(self).manager(),
            final(self).wf() == old(self).wf(),
            final(self).runs(),
            started_status(old(self).current_status(), final(self).current_status()),
    {
        self.running = true;
        mark_started(&mut self.status);
        Ok(())
    }

    /// Stops the service: it no longer runs, and its channel is disconnected.
    pub fn stop(&mut self) -> (r: Result<(), ComSrvError>)
        ensures
            r is Ok,
            final(self).identity() == old(self).identity(),
            final(self).manager() == old(self).manager(),
            final(self).wf() == old(self).wf(),
            !final(self).runs(),
            stopped_status(old(self).current_status(), final(self).current_status()),
    {
        self.running = false;
        mark_stopped(&mut self.status);
        Ok(())
    }

    /// The channel status.
    pub fn status(&self) -> (r: &ChannelStatus)
        ensures
            *r == self.current_status(),
    {
        &self.status
    }

    /// Updates the channel status: the connection state, the response time (the
    /// bits of an `f64`, in milliseconds) and the error, which is set when one is
    /// given and cleared when none is. The update time becomes now.
    pub fn update_status(&mut self, connected: bool, response_time_bits: u64, error: Option<&str>)
        ensures
            final(self).identity() == old(self).identity(),
            final(self).runs() == old(self).runs(),
            final(self).manager() == old(self).manager(),
            final(self).wf() == old(self).wf(),
            final(self).current_status().id == old(self).current_status().id,
            final(self).current_status().connected == connected,
            final(self).current_status().last_response_time_bits == response_time_bits,
            final(self).current_status().last_error@ == match error {
                Some(e) => e@,
                None => Seq::<char>::empty(),
            },
    {
        self.status.connected = connected;
        self.status.last_response_time_bits = response_time_bits;
        self.status.last_update_time = current_time();
        self.status.last_error = match error {
            Some(e) => string_of(e),
            None => String::new(),
        };
    }

    /// Copies of all cached point data; none without a point manager.
    pub fn get_all_points(&self) -> (r: Vec<PointData>)
        requires
            self.wf(),
        ensures
            match self.manager() {
                Some(pm) => ids_distinct(views_of(r@)) && data_map(views_of(r@)) == pm.cached(),
                None => r@.len() == 0,
            },
    {
        match &self.point_manager {
            Some(pm) => pm.get_all_point_data(),
            None => Vec::new(),
        }
    }

    /// The cached data of the point that `point_id` names.
    pub fn read_point(&self, point_id: &str) -> (r: Result<PointData, ComSrvError>)
        requires
            self.wf(),
        ensures
            match self.manager() {
                Some(pm) => if pm.cached().contains_key(point_id@) {
                    r matches Ok(d) && d@ == pm.cached()[point_id@]
                } else {
                    r matches Err(ComSrvError::NotFound(m)) && m@ == "Point not found: "@ + point_id@
                },
                None => r matches Err(ComSrvError::InvalidOperation(m))
                    && m@ == "No point manager available for point reading"@,
            },
    {
        match &self.point_manager {
            Some(pm) => match pm.get_point_data(point_id) {
                Some(d) => Ok(d),
                None => {
                    let message = crate::error::text_str_text("Point not found: ", point_id, "");
                    proof {
                        reveal_strlit("");
                        assert(message@ =~= "Point not found: "@ + point_id@);
                    }
                    Err(ComSrvError::NotFound(message))
                },
            },
            None => Err(ComSrvError::InvalidOperation(string_of("No point manager available for point reading"))),
        }
    }

    /// Writing a point is left to the protocols.
    pub fn write_point(&mut self, point_id: &str, value: &str) -> (r: Result<(), ComSrvError>)
        ensures
            r matches Err(ComSrvError::InvalidOperation(m))
                && m@ == "Base implementation does not support point writing - protocols should override this method"@,
            *final(self) == *old(self),
    {
        Err(ComSrvError::InvalidOperation(
            string_of("Base implementation does not support point writing - protocols should override this method"),
        ))
    }

    /// The diagnostics: name, protocol, running, connected and last error, whether
    /// there is a point manager, and the manager's counts when there is one.
    pub fn get_diagnostics(&self) -> (d: ParamMap)
        ensures
            d.wf(),
            d@ == (match self.manager() {
                Some(pm) => point_diagnostics(
                    base_diagnostics(self.identity().0, self.identity().1, self.runs(), self.current_status()).insert(
                        "has_point_manager"@,
                        "true"@,
                    ),
                    pm.statistics(),
                ),
                None => base_diagnostics(self.identity().0, self.identity().1, self.runs(), self.current_status()).insert(
                    "has_point_manager"@,
                    "false"@,
                ),
            }),
    {
        let mut d = ParamMap::new();
        d.insert(string_of("service_name"), self.name.clone());
        d.insert(string_of("protocol_type"), self.protocol_type.clone());
        d.insert(string_of("running"), bool_string(self.running));
        d.insert(string_of("connected"), bool_string(self.status.connected));
        d.insert(string_of("last_error"), self.status.last_error.clone());
        d.insert(string_of("has_point_manager"), bool_string(self.point_manager.is_some()));
        match &self.point_manager {
            Some(pm) => {
                let stats = pm.get_stats();
                d.insert(string_of("total_points"), u64_to_decimal(stats.total_points as u64));
                d.insert(string_of("enabled_points"), u64_to_decimal(stats.enabled_points as u64));
                d.insert(string_of("read_operations"), u64_to_decimal(stats.read_operations));
                d.insert(string_of("write_operations"), u64_to_decimal(stats.write_operations));
                d.insert(string_of("validation_errors"), u64_to_decimal(stats.validation_errors));
            },
            None => {},
        }
        d
    }

    /// Copies of the cached data of the points of a telemetry type; none without a
    /// point manager.
    pub fn get_points_by_telemetry_type(&self, telemetry_type: &TelemetryType) -> (r: Vec<PointData>)
        requires
            self.wf(),
        ensures
            match self.manager() {
                Some(pm) => views_of(r@) == cached_among(pm.type_list(*telemetry_type), pm.cached()),
                None => r@.len() == 0,
            },
    {
        match &self.point_manager {
            Some(pm) => pm.get_point_data_by_type(telemetry_type),
            None => Vec::new(),
        }
    }

    /// All point configurations of the point manager; none without one.
    pub fn get_all_point_configs(&self) -> (r: &[UniversalPointConfig])
        requires
            self.wf(),
        ensures
            point_ids_distinct(r@),
            match self.manager() {
                Some(pm) => map_of_points(r@) == pm.configs(),
                None => r@.len() == 0,
            },
    {
        match &self.point_manager {
            Some(pm) => pm.get_all_point_configs(),
            None => &[],
        }
    }

    /// The enabled points of a telemetry type, as decimal texts; none without a
    /// point manager.
    pub fn get_enabled_points_by_type(&self, telemetry_type: &TelemetryType) -> (r: Vec<String>)
        requires
            self.wf(),
        ensures
            match self.manager() {
                Some(pm) => r@.len() == enabled_among(pm.type_list(*telemetry_type), pm.configs()).len() && forall|
                    i: int,
                | 0 <= i < r@.len() ==> #[trigger] r@[i]@ == decimal_of(
                    enabled_among(pm.type_list(*telemetry_type), pm.configs())[i] as nat,
                ),
                None => r@.len() == 0,
            },
    {
        match &self.point_manager {
            Some(pm) => pm.get_enabled_points_by_type(telemetry_type),
            None => Vec::new(),
        }
    }
}

} // verus!
