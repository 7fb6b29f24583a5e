use vstd::prelude::*;

verus! {

/// The settings that the pipeline cannot start without.
#[derive(Clone, Copy, Debug, PartialEq, Eq, Structural)]
pub enum ConfigKey {
    DeviceAddress,
    SinkHost,
    SinkOrg,
    SinkToken,
    SinkBucket,
}

/// A required setting was not supplied; the pipeline does not start.
#[derive(Clone, Copy, Debug, PartialEq, Eq, Structural)]
pub enum ConfigError {
    Missing(ConfigKey),
}

/// Command that asks the demo machine to identify itself: `?K\r`.
pub open spec fn check_command_bytes() -> Seq<u8> {
    seq![63u8, 75u8, 13u8]
}

/// Reply that a healthy demo machine gives to the check command: `55`.
pub open spec fn check_response_chars() -> Seq<char> {
    seq!['5', '5']
}

/// Command that reads out the monitored values: `MWR\r`.
pub open spec fn monitor_readout_bytes() -> Seq<u8> {
    seq![77u8, 87u8, 82u8, 13u8]
}

/// What a device configuration holds, as plain sequences.
pub ghost struct DeviceConfigModel {
    pub address: Seq<char>,
    pub check_command: Seq<u8>,
    pub check_response: Seq<char>,
    pub set_moniter_command: Seq<u8>,
    pub monitor_readout_command: Seq<u8>,
}

/// Immutable addressing and command data of one demo machine.
pub struct DemoMachineConfig {
    address: String,
    check_command: Vec<u8>,
    check_response: String,
    set_moniter_command: Vec<u8>,
    monitor_readout_command: Vec<u8>,
}

impl View for DemoMachineConfig {
    type V = DeviceConfigModel;

    closed spec fn view(&self) -> DeviceConfigModel {
        DeviceConfigModel {
            address: self.address@,
            check_command: self.check_command@,
            check_response: self.check_response@,
            set_moniter_command: self.set_moniter_command@,
            monitor_readout_command: self.monitor_readout_command@,
        }
    }
}

fn copy_bytes(v: &Vec<u8>) -> (r: Vec<u8>)
    ensures
        r@ == v@,
{
    let mut r: Vec<u8> = Vec::new();
    let mut i: usize = 0;
    while i < v.len()
        invariant
            i <= v.len(),
            r@ == v@.subrange(0, i as int),
        decreases v.len() - i,
    {
        r.push(v[i]);
        i = i + 1;
    }
    assert(r@ == v@.subrange(0, v.len() as int));
    r
}

impl DemoMachineConfig {
    /// Builds the configuration from the value that the environment holds
    /// under the device address key (`None` when it is unset) and the
    /// machine's monitor-arming command. The remaining commands are fixed by
    /// the machine model.
    pub fn create_from_env(address: Option<String>, set_moniter_command: Vec<u8>) -> (r: Result<
        Self,
        ConfigError,
    >)
        ensures
            address.is_none() <==> r == Err::<Self, ConfigError>(
                ConfigError::Missing(ConfigKey::DeviceAddress),
            ),
            r is Ok <==> address is Some,
            r is Ok ==> r->Ok_0@ == (DeviceConfigModel {
                address: address->Some_0@,
                check_command: check_command_bytes(),
                check_response: check_response_chars(),
                set_moniter_command: set_moniter_command@,
                monitor_readout_command: monitor_readout_bytes(),
            }),
    {
        match address {
            None => Err(ConfigError::Missing(ConfigKey::DeviceAddress)),
            Some(address) => {
                let check_command: Vec<u8> = vec![63u8, 75u8, 13u8];
                let check_response = String::from_str("55");
                proof {
                    reveal_strlit("55");
                }
                let monitor_readout_command: Vec<u8> = vec![77u8, 87u8, 82u8, 13u8];
                let r = DemoMachineConfig {
                    address,
                    check_command,
                    check_response,
                    set_moniter_command,
                    monitor_readout_command,
                };
                assert(r@.check_command =~= check_command_bytes());
                assert(r@.check_response =~= check_response_chars());
                assert(r@.monitor_readout_command =~= monitor_readout_bytes());
                Ok(r)
            },
        }
    }

    pub fn get_address(&self) -> (r: String)
        ensures
            r@ == self@.address,
    {
        self.address.clone()
    }

    pub fn get_check_command(&self) -> (r: Vec<u8>)
        ensures
            r@ == self@.check_command,
    {
        copy_bytes(&self.check_command)
    }

    pub fn get_check_response(&self) -> (r: String)
        ensures
            r@ == self@.check_response,
    {
        self.check_response.clone()
    }

    pub fn get_set_moniter_command(&self) -> (r: Vec<u8>)
        ensures
            r@ == self@.set_moniter_command,
    {
        copy_bytes(&self.set_moniter_command)
    }

    pub fn get_monitor_readout_command(&self) -> (r: Vec<u8>)
        ensures
            r@ == self@.monitor_readout_command,
    {
        copy_bytes(&self.monitor_readout_command)
    }
}

/// Where the forwarder writes: host, organisation, access token and bucket of
/// the time-series store.
pub struct SinkConfig {
    pub host: String,
    pub org: String,
    pub token: String,
    pub bucket: String,
}

impl SinkConfig {
    /// Resolves the sink settings from the values found for each key. The
    /// first key without a value, in the order host, org, token, bucket, is
    /// reported.
    pub fn resolve(
        host: Option<String>,
        org: Option<String>,
        token: Option<String>,
        bucket: Option<String>,
    ) -> (r: Result<SinkConfig, ConfigError>)
        ensures
            host is None ==> r == Err::<SinkConfig, ConfigError>(
                ConfigError::Missing(ConfigKey::SinkHost),
            ),
            host is Some && org is None ==> r == Err::<SinkConfig, ConfigError>(
                ConfigError::Missing(ConfigKey::SinkOrg),
            ),
            host is Some && org is Some && token is None ==> r == Err::<SinkConfig, ConfigError>(
                ConfigError::Missing(ConfigKey::SinkToken),
            ),
            host is Some && org is Some && token is Some && bucket is None ==> r == Err::<
                SinkConfig,
                ConfigError,
            >(ConfigError::Missing(ConfigKey::SinkBucket)),
            r is Ok <==> (host is Some && org is Some && token is Some && bucket is Some),
            r is Ok ==> {
                &&& r->Ok_0.host@ == host->Some_0@
                &&& r->Ok_0.org@ == org->Some_0@
                &&& r->Ok_0.token@ == token->Some_0@
                &&& r->Ok_0.bucket@ == bucket->Some_0@
            },
    {
        match (host, org, token, bucket) {
            (None, _, _, _) => Err(ConfigError::Missing(ConfigKey::SinkHost)),
            (Some(_), None, _, _) => Err(ConfigError::Missing(ConfigKey::SinkOrg)),
            (Some(_), Some(_), None, _) => Err(ConfigError::Missing(ConfigKey::SinkToken)),
            (Some(_), Some(_), Some(_), None) => Err(ConfigError::Missing(ConfigKey::SinkBucket)),
            (Some(host), Some(org), Some(token), Some(bucket)) => Ok(
                SinkConfig { host, org, token, bucket },
            ),
        }
    }
}

} // verus!
