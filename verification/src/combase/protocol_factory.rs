//! The protocol factories: the built-in Modbus factories' configuration checks
//! (which channel parameters must be present before a client can be created), and
//! the registry of factories and of the channels created through them (which
//! protocols can be created, which channel numbers are taken, and when a protocol's
//! factory may be taken out). A protocol is named by its type's name, as in
//! `ModbusTcp`.

use vstd::prelude::*;
use crate::error::{push_str, ComSrvError};
use crate::keyed::{find_keyed, keyed_map, keyed_views, keys_distinct, keys_of, put_keyed, remove_keyed};
use crate::param_map::ParamMap;
use crate::text::{decimal_of, push_decimal, str_eq, string_of, u64_to_decimal};

verus! {

/// Whether one of the parameter names is `key`.
pub open spec fn has_parameter(names: Seq<String>, key: Seq<char>) -> bool {
    exists|i: int| 0 <= i < names.len() && #[trigger] names[i]@ == key
}

/// Whether one of the parameter names is `key`.
pub fn parameter_present(names: &Vec<String>, key: &str) -> (r: bool)
    ensures
        r == has_parameter(names@, key@),
{
    let n = names.len();
    let mut i: usize = 0;
    while i < n
        invariant
            n == names@.len(),
            i <= n,
            forall|j: int| 0 <= j < i ==> #[trigger] names@[j]@ != key@,
        decreases n - i,
    {
        if str_eq(names[i].as_str(), key) {
            return true;
        }
        i = i + 1;
    }
    false
}

/// Built-in Modbus TCP factory.
pub struct ModbusTcpFactory;

impl ModbusTcpFactory {
    /// The protocol this factory creates clients for.
    pub fn protocol_type(&self) -> (r: &'static str)
        ensures
            r@ == "ModbusTcp"@,
    {
        "ModbusTcp"
    }

    /// Validates a channel's parameters, given by name: parameters nested under
    /// `ModbusTcp`, a `host` (the port defaults to 502), or a legacy `address`.
    pub fn validate_config(&self, parameter_names: &Vec<String>) -> (r: Result<(), ComSrvError>)
        ensures
            (has_parameter(parameter_names@, "ModbusTcp"@) || has_parameter(parameter_names@, "host"@)
                || has_parameter(parameter_names@, "address"@)) ==> r is Ok,
            !(has_parameter(parameter_names@, "ModbusTcp"@) || has_parameter(parameter_names@, "host"@)
                || has_parameter(parameter_names@, "address"@)) ==> (r matches Err(ComSrvError::InvalidParameter(m))
                && m@ == "host parameter is required (or legacy address parameter)"@),
    {
        if parameter_present(parameter_names, "ModbusTcp") {
            return Ok(());
        }
        if parameter_present(parameter_names, "host") {
            return Ok(());
        }
        if parameter_present(parameter_names, "address") {
            return Ok(());
        }
        Err(ComSrvError::InvalidParameter(string_of("host parameter is required (or legacy address parameter)")))
    }
}

/// Built-in Modbus RTU factory.
pub struct ModbusRtuFactory;

impl ModbusRtuFactory {
    /// The protocol this factory creates clients for.
    pub fn protocol_type(&self) -> (r: &'static str)
        ensures
            r@ == "ModbusRtu"@,
    {
        "ModbusRtu"
    }

    /// Validates a channel's parameters, given by name: parameters nested under
    /// `ModbusRtu`, or a serial `port`.
    pub fn validate_config(&self, parameter_names: &Vec<String>) -> (r: Result<(), ComSrvError>)
        ensures
            (has_parameter(parameter_names@, "ModbusRtu"@) || has_parameter(parameter_names@, "port"@)) ==> r is Ok,
            !(has_parameter(parameter_names@, "ModbusRtu"@) || has_parameter(parameter_names@, "port"@)) ==> (r matches Err(
                ComSrvError::InvalidParameter(m),
            ) && m@ == "port parameter is required"@),
    {
        if parameter_present(parameter_names, "ModbusRtu") {
            return Ok(());
        }
        if parameter_present(parameter_names, "port") {
            return Ok(());
        }
        Err(ComSrvError::InvalidParameter(string_of("port parameter is required")))
    }
}

/// A stand-in communication channel for exercising channel management: it starts
/// and stops on request, or fails to when made to.
#[derive(Debug)]
pub struct MockComBase {
    name: String,
    channel_id: u16,
    protocol_type: String,
    running: bool,
    should_fail_start: bool,
    should_fail_stop: bool,
}

impl MockComBase {
    /// Whether the channel is running.
    pub closed spec fn runs(&self) -> bool {
        self.running
    }

    /// Whether starting the channel fails.
    pub closed spec fn fails_start(&self) -> bool {
        self.should_fail_start
    }

    /// Whether stopping the channel fails.
    pub closed spec fn fails_stop(&self) -> bool {
        self.should_fail_stop
    }

    /// The channel's name, number and protocol.
    pub closed spec fn identity(&self) -> (Seq<char>, u16, Seq<char>) {
        (self.name@, self.channel_id, self.protocol_type@)
    }

    /// A stopped channel that starts and stops on request.
    pub fn new(name: &str, channel_id: u16, protocol_type: &str) -> (m: Self)
        ensures
            m.identity() == (name@, channel_id, protocol_type@),
            !m.runs(),
            !m.fails_start(),
            !m.fails_stop(),
    {
        MockComBase {
            name: string_of(name),
            channel_id,
            protocol_type: string_of(protocol_type),
            running: false,
            should_fail_start: false,
            should_fail_stop: false,
        }
    }

    /// A stopped channel whose start fails.
    pub fn with_start_failure(name: &str, channel_id: u16, protocol_type: &str) -> (m: Self)
        ensures
            m.identity() == (name@, channel_id, protocol_type@),
            !m.runs(),
            m.fails_start(),
            !m.fails_stop(),
    {
        MockComBase {
            name: string_of(name),
            channel_id,
            protocol_type: string_of(protocol_type),
            running: false,
            should_fail_start: true,
            should_fail_stop: false,
        }
    }

    /// A stopped channel whose stop fails.
    pub fn with_stop_failure(name: &str, channel_id: u16, protocol_type: &str) -> (m: Self)
        ensures
            m.identity() == (name@, channel_id, protocol_type@),
            !m.runs(),
            !m.fails_start(),
            m.fails_stop(),
    {
        MockComBase {
            name: string_of(name),
            channel_id,
            protocol_type: string_of(protocol_type),
            running: false,
            should_fail_start: false,
            should_fail_stop: true,
        }
    }

    /// The channel's name.
    pub fn name(&self) -> (r: &str)
        ensures
            r@ == self.identity().0,
    {
        self.name.as_str()
    }

    /// The channel's number as text.
    pub fn channel_id(&self) -> (r: String)
        ensures
            r@ == decimal_of(self.identity().1 as nat),
    {
        u64_to_decimal(self.channel_id as u64)
    }

    /// The channel's protocol.
    pub fn protocol_type(&self) -> (r: &str)
        ensures
            r@ == self.identity().2,
    {
        self.protocol_type.as_str()
    }

    /// The channel's parameters: `mock` is `true` and `channel_id` its number.
    pub fn get_parameters(&self) -> (p: ParamMap)
        ensures
            p.wf(),
            p@ == map!["mock"@ => "true"@, "channel_id"@ => decimal_of(self.identity().1 as nat)],
    {
        let mut params = ParamMap::new();
        params.insert(string_of("mock"), string_of("true"));
        params.insert(string_of("channel_id"), u64_to_decimal(self.channel_id as u64));
        params
    }

    /// Whether the channel is running.
    pub fn is_running(&self) -> (r: bool)
        ensures
            r == self.runs(),
    {
        self.running
    }

    /// Starts the channel, unless it is made to fail.
    pub fn start(&mut self) -> (r: Result<(), ComSrvError>)
        ensures
            final(self).identity() == old(self).identity(),
            final(self).fails_start() == old(self).fails_start(),
            final(self).fails_stop() == old(self).fails_stop(),
            old(self).fails_start() ==> (r matches Err(ComSrvError::InvalidOperation(m)) && m@ == "Mock start failure"@
                && final(self).runs() == old(self).runs()),
            !old(self).fails_start() ==> (r is Ok && final(self).runs()),
    {
        if self.should_fail_start {
            return Err(ComSrvError::InvalidOperation(string_of("Mock start failure")));
        }
        self.running = true;
        Ok(())
    }

    /// Stops the channel, unless it is made to fail.
    pub fn stop(&mut self) -> (r: Result<(), ComSrvError>)
        ensures
            final(self).identity() == old(self).identity(),
            final(self).fails_start() == old(self).fails_start(),
            final(self).fails_stop() == old(self).fails_stop(),
            old(self).fails_stop() ==> (r matches Err(ComSrvError::InvalidOperation(m)) && m@ == "Mock stop failure"@
                && final(self).runs() == old(self).runs()),
            !old(self).fails_stop() ==> (r is Ok && !final(self).runs()),
    {
        if self.should_fail_stop {
            return Err(ComSrvError::InvalidOperation(string_of("Mock stop failure")));
        }
        self.running = false;
        Ok(())
    }
}

/// Whether no two channels share a number.
pub open spec fn channel_ids_distinct(s: Seq<(u16, Seq<char>)>) -> bool {
    forall|i: int, j: int| 0 <= i < s.len() && 0 <= j < s.len() && i != j ==> #[trigger] s[i].0 != #[trigger] s[j].0
}

/// The numbers of the channels that run protocol `p`, in the order the channels were added.
pub open spec fn active_ids(s: Seq<(u16, Seq<char>)>, p: Seq<char>) -> Seq<u16>
    decreases s.len(),
{
    if s.len() == 0 {
        Seq::empty()
    } else if s.last().1 == p {
        active_ids(s.drop_last(), p).push(s.last().0)
    } else {
        active_ids(s.drop_last(), p)
    }
}

/// Numbers written in decimal, separated by ", " (as a list of numbers is printed).
pub open spec fn joined_ids(s: Seq<u16>) -> Seq<char>
    decreases s.len(),
{
    if s.len() == 0 {
        Seq::empty()
    } else if s.len() == 1 {
        decimal_of(s[0] as nat)
    } else {
        joined_ids(s.drop_last()) + ", "@ + decimal_of(s.last() as nat)
    }
}

/// The message that refuses to take out the factory of `p` while the channels
/// `ids` run it.
pub open spec fn busy_protocol_message(p: Seq<char>, ids: Seq<u16>) -> Seq<char> {
    "Cannot unregister protocol factory for "@ + p + ": "@ + decimal_of(ids.len()) + " active channels found (IDs: ["@
        + joined_ids(ids) + "]). Please stop and remove all channels of this protocol type first."@
}

/// The registered protocol factories, by protocol name, and the channels, each with
/// its number and the protocol it runs.
pub struct ProtocolFactory {
    factories: Vec<(String, ())>,
    channels: Vec<(u16, String)>,
}

impl ProtocolFactory {
    /// The protocols that have a factory.
    pub closed spec fn protocols(&self) -> Set<Seq<char>> {
        keyed_map(keyed_views(self.factories@)).dom()
    }

    /// The channels, each with its number and protocol, in the order they were added.
    pub closed spec fn channel_list(&self) -> Seq<(u16, Seq<char>)> {
        self.channels@.map_values(|c: (u16, String)| (c.0, c.1@))
    }

    /// The registry's invariant: each protocol and each channel number appears once.
    pub closed spec fn wf(&self) -> bool {
        &&& keys_distinct(keyed_views(self.factories@))
        &&& channel_ids_distinct(self.channel_list())
    }

    /// A registry with the built-in factories, Modbus TCP and Modbus RTU, and no channels.
    pub fn new() -> (r: Self)
        ensures
            r.wf(),
            r.protocols() == set!["ModbusTcp"@, "ModbusRtu"@],
            r.channel_list() == Seq::<(u16, Seq<char>)>::empty(),
    {
        let mut r = ProtocolFactory { factories: Vec::new(), channels: Vec::new() };
        assert(keyed_views(r.factories@) =~= Seq::<(Seq<char>, ())>::empty());
        assert(r.protocols() =~= Set::<Seq<char>>::empty());
        assert(r.channel_list() =~= Seq::<(u16, Seq<char>)>::empty());
        r.register_protocol_factory(ModbusTcpFactory.protocol_type());
        r.register_protocol_factory(ModbusRtuFactory.protocol_type());
        assert(r.protocols() =~= set!["ModbusTcp"@, "ModbusRtu"@]);
        r
    }

    /// Registers the factory of protocol `protocol_type`; one registered before for
    /// that protocol is replaced.
    pub fn register_protocol_factory(&mut self, protocol_type: &str)
        requires
            old(self).wf(),
        ensures
            final(self).wf(),
            final(self).protocols() == old(self).protocols().insert(protocol_type@),
            final(self).channel_list() == old(self).channel_list(),
    {
        put_keyed(&mut self.factories, protocol_type.to_string(), ());
        assert(self.protocols() =~= old(self).protocols().insert(protocol_type@));
    }

    /// Whether protocol `protocol_type` has a factory.
    pub fn is_protocol_supported(&self, protocol_type: &str) -> (r: bool)
        requires
            self.wf(),
        ensures
            r == self.protocols().contains(protocol_type@),
    {
        proof {
            crate::keyed::lemma_keyed_map(keyed_views(self.factories@), protocol_type@);
        }
        find_keyed(&self.factories, protocol_type).is_some()
    }

    /// The protocols that have a factory, each once.
    pub fn supported_protocols(&self) -> (r: Vec<String>)
        requires
            self.wf(),
        ensures
            forall|i: int, j: int| 0 <= i < r@.len() && 0 <= j < r@.len() && i != j ==> #[trigger] r@[i]@ != #[trigger] r@[j]@,
            forall|i: int| 0 <= i < r@.len() ==> self.protocols().contains(#[trigger] r@[i]@),
            forall|p: Seq<char>| #[trigger] self.protocols().contains(p) ==> exists|i: int| 0 <= i < r@.len() && #[trigger] r@[i]@ == p,
    {
        keys_of(&self.factories)
    }

    /// The numbers of the channels that run protocol `protocol_type`, in the order
    /// the channels were added.
    fn active_channels(&self, protocol_type: &str) -> (r: Vec<u16>)
        ensures
            r@ == active_ids(self.channel_list(), protocol_type@),
    {
        let n = self.channels.len();
        let mut out: Vec<u16> = Vec::new();
        let mut i: usize = 0;
        while i < n
            invariant
                n == self.channels@.len(),
                i <= n,
                out@ == active_ids(self.channel_list().subrange(0, i as int), protocol_type@),
            decreases n - i,
        {
            let ghost pre = self.channel_list().subrange(0, i as int);
            let ghost cur = self.channel_list().subrange(0, i + 1);
            assert(cur.drop_last() == pre);
            assert(cur.last() == (self.channels@[i as int].0, self.channels@[i as int].1@));
            if str_eq(self.channels[i].1.as_str(), protocol_type) {
                out.push(self.channels[i].0);
            }
            i = i + 1;
        }
        assert(self.channel_list().subrange(0, n as int) == self.channel_list());
        out
    }

    /// Takes out the factory of protocol `protocol_type`. Refused while channels run
    /// that protocol; otherwise whether there was a factory to take out.
    pub fn unregister_protocol_factory(&mut self, protocol_type: &str) -> (r: Result<bool, ComSrvError>)
        requires
            old(self).wf(),
        ensures
            final(self).wf(),
            final(self).channel_list() == old(self).channel_list(),
            active_ids(old(self).channel_list(), protocol_type@).len() > 0 ==> {
                &&& r matches Err(ComSrvError::ConfigError(m)) && m@ == busy_protocol_message(
                    protocol_type@,
                    active_ids(old(self).channel_list(), protocol_type@),
                )
                &&& final(self).protocols() == old(self).protocols()
            },
            active_ids(old(self).channel_list(), protocol_type@).len() == 0 ==> {
                &&& r == Ok::<bool, ComSrvError>(old(self).protocols().contains(protocol_type@))
                &&& final(self).protocols() == old(self).protocols().remove(protocol_type@)
            },
    {
        let active = self.active_channels(protocol_type);
        if active.len() > 0 {
            let mut msg = String::new();
            push_str(&mut msg, "Cannot unregister protocol factory for ");
            push_str(&mut msg, protocol_type);
            push_str(&mut msg, ": ");
            push_decimal(&mut msg, active.len() as u64);
            push_str(&mut msg, " active channels found (IDs: [");
            push_joined_ids(&mut msg, &active);
            push_str(&mut msg, "]). Please stop and remove all channels of this protocol type first.");
            assert(msg@ =~= busy_protocol_message(protocol_type@, active@));
            return Err(ComSrvError::ConfigError(msg));
        }
        let found = remove_keyed(&mut self.factories, protocol_type);
        assert(self.protocols() =~= old(self).protocols().remove(protocol_type@));
        Ok(found)
    }

    /// Records channel `channel_id`, which runs protocol `protocol_type`; refused,
    /// with the registry unchanged, when the number is taken.
    pub fn add_channel(&mut self, channel_id: u16, protocol_type: &str) -> (r: Result<(), ComSrvError>)
        requires
            old(self).wf(),
        ensures
            final(self).wf(),
            final(self).protocols() == old(self).protocols(),
            (exists|i: int| 0 <= i < old(self).channel_list().len() && #[trigger] old(self).channel_list()[i].0 == channel_id) ==> {
                &&& r matches Err(ComSrvError::ConfigError(m)) && m@ == "Channel ID already exists: "@ + decimal_of(channel_id as nat)
                &&& final(self).channel_list() == old(self).channel_list()
            },
            !(exists|i: int| 0 <= i < old(self).channel_list().len() && #[trigger] old(self).channel_list()[i].0 == channel_id) ==> {
                &&& r is Ok
                &&& final(self).channel_list() == old(self).channel_list().push((channel_id, protocol_type@))
            },
    {
        let n = self.channels.len();
        let mut i: usize = 0;
        while i < n
            invariant
                n == self.channels@.len(),
                i <= n,
                forall|j: int| 0 <= j < i ==> #[trigger] self.channel_list()[j].0 != channel_id,
                self.wf(),
                self.channel_list() == old(self).channel_list(),
                self.protocols() == old(self).protocols(),
            decreases n - i,
        {
            assert(self.channel_list()[i as int].0 == self.channels@[i as int].0);
            if self.channels[i].0 == channel_id {
                let mut msg = String::new();
                push_str(&mut msg, "Channel ID already exists: ");
                push_decimal(&mut msg, channel_id as u64);
                assert(msg@ =~= "Channel ID already exists: "@ + decimal_of(channel_id as nat));
                return Err(ComSrvError::ConfigError(msg));
            }
            i = i + 1;
        }
        let ghost before = self.channel_list();
        self.channels.push((channel_id, protocol_type.to_string()));
        assert(self.channel_list() =~= before.push((channel_id, protocol_type@)));
        assert(channel_ids_distinct(self.channel_list())) by {
            let s = self.channel_list();
            assert forall|a: int, b: int| 0 <= a < s.len() && 0 <= b < s.len() && a != b implies #[trigger] s[a].0
                != #[trigger] s[b].0 by {
                if a < before.len() && b < before.len() {
                    assert(s[a] == before[a] && s[b] == before[b]);
                } else if a < before.len() {
                    assert(s[a] == before[a]);
                } else {
                    assert(s[b] == before[b]);
                }
            }
        }
        Ok(())
    }

    /// The numbers of the channels, in the order they were added.
    pub fn get_channel_ids(&self) -> (r: Vec<u16>)
        ensures
            r@.len() == self.channel_list().len(),
            forall|i: int| 0 <= i < r@.len() ==> #[trigger] r@[i] == self.channel_list()[i].0,
    {
        let n = self.channels.len();
        let mut out: Vec<u16> = Vec::new();
        let mut i: usize = 0;
        while i < n
            invariant
                n == self.channels@.len(),
                i <= n,
                out@.len() == i,
                forall|j: int| 0 <= j < i ==> #[trigger] out@[j] == self.channel_list()[j].0,
            decreases n - i,
        {
            out.push(self.channels[i].0);
            i = i + 1;
        }
        out
    }

    /// The number of channels.
    pub fn channel_count(&self) -> (r: usize)
        ensures
            r == self.channel_list().len(),
    {
        self.channels.len()
    }

    /// Whether there is no channel.
    pub fn is_empty(&self) -> (r: bool)
        ensures
            r == (self.channel_list().len() == 0),
    {
        self.channels.len() == 0
    }
}

/// Appends the numbers of `ids` in decimal, separated by ", ".
fn push_joined_ids(out: &mut String, ids: &Vec<u16>)
    ensures
        final(out)@ == old(out)@ + joined_ids(ids@),
{
    let n = ids.len();
    let mut i: usize = 0;
    while i < n
        invariant
            n == ids@.len(),
            i <= n,
            out@ == old(out)@ + joined_ids(ids@.subrange(0, i as int)),
        decreases n - i,
    {
        let ghost before = out@;
        let ghost pre = ids@.subrange(0, i as int);
        let ghost cur = ids@.subrange(0, i + 1);
        assert(cur.drop_last() == pre);
        if i > 0 {
            push_str(out, ", ");
        }
        push_decimal(out, ids[i] as u64);
        proof {
            if i == 0 {
                assert(pre =~= Seq::<u16>::empty());
                assert(out@ =~= before + decimal_of(cur[0] as nat));
            } else {
                assert(out@ =~= before + ", "@ + decimal_of(cur.last() as nat));
            }
        }
        i = i + 1;
    }
    assert(ids@.subrange(0, n as int) == ids@);
}

} // verus!
