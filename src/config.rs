//! Configuration of the OSC control input and of the publish path, read
//! from a configuration document.
//!
//! `ConfigValue` holds what these readers look at in a document node: the
//! caller builds it from its parsed document.
use vstd::prelude::*;
use vstd::string::StringExecFns;

verus! {

/// A node of a configuration document, as far as the readers here look.
#[derive(Debug)]
pub enum ConfigValue {
    Bool(bool),
    /// A non-negative integer.
    Unsigned(u64),
    Text(String),
    /// Key/value pairs in document order, keys unique.
    Mapping(Vec<(ConfigValue, ConfigValue)>),
    /// A node carrying an explicit tag; readers look through it.
    Tagged(Box<ConfigValue>),
    /// Anything else: null, negative or fractional numbers, sequences.
    Other,
}

/// The node under any tags.
pub open spec fn untag(v: ConfigValue) -> ConfigValue
    decreases v,
{
    match v {
        ConfigValue::Tagged(inner) => untag(*inner),
        _ => v,
    }
}

pub open spec fn key_is(k: ConfigValue, key: Seq<char>) -> bool {
    match k {
        ConfigValue::Text(s) => s@ == key,
        _ => false,
    }
}

/// The value of the first entry from `i` on whose key is the text `key`.
pub open spec fn entry_from(es: Seq<(ConfigValue, ConfigValue)>, key: Seq<char>, i: int) -> Option<
    ConfigValue,
>
    decreases es.len() - i,
{
    if i < 0 || i >= es.len() {
        None
    } else if key_is(es[i].0, key) {
        Some(es[i].1)
    } else {
        entry_from(es, key, i + 1)
    }
}

/// The value under `key` when `v` is a map.
pub open spec fn field(v: ConfigValue, key: Seq<char>) -> Option<ConfigValue> {
    match untag(v) {
        ConfigValue::Mapping(es) => entry_from(es@, key, 0),
        _ => None,
    }
}

pub open spec fn as_text(v: ConfigValue) -> Option<Seq<char>> {
    match untag(v) {
        ConfigValue::Text(s) => Some(s@),
        _ => None,
    }
}

pub open spec fn as_flag(v: ConfigValue) -> Option<bool> {
    match untag(v) {
        ConfigValue::Bool(b) => Some(b),
        _ => None,
    }
}

pub open spec fn as_unsigned(v: ConfigValue) -> Option<u64> {
    match untag(v) {
        ConfigValue::Unsigned(n) => Some(n),
        _ => None,
    }
}

pub open spec fn as_entries(v: ConfigValue) -> Option<Seq<(ConfigValue, ConfigValue)>> {
    match untag(v) {
        ConfigValue::Mapping(es) => Some(es@),
        _ => None,
    }
}

pub open spec fn text_of(v: Option<ConfigValue>) -> Option<Seq<char>> {
    match v {
        Some(x) => as_text(x),
        None => None,
    }
}

fn lookup_entry<'a>(es: &'a Vec<(ConfigValue, ConfigValue)>, key: &String) -> (r: Option<
    &'a ConfigValue,
>)
    ensures
        match r {
            Some(x) => entry_from(es@, key@, 0) == Some(*x),
            None => entry_from(es@, key@, 0) is None,
        },
{
    let mut i: usize = 0;
    while i < es.len()
        invariant
            i <= es@.len(),
            entry_from(es@, key@, i as int) == entry_from(es@, key@, 0),
        decreases es@.len() - i,
    {
        let hit = match &es[i].0 {
            ConfigValue::Text(s) => *s == *key,
            _ => false,
        };
        if hit {
            return Some(&es[i].1);
        }
        i = i + 1;
    }
    None
}

impl ConfigValue {
    /// This node with its tags looked through.
    pub fn untagged(&self) -> (r: &ConfigValue)
        ensures
            *r == untag(*self),
        decreases *self,
    {
        match self {
            ConfigValue::Tagged(inner) => inner.untagged(),
            _ => self,
        }
    }

    /// The value under `key` when this node is a map.
    pub fn get(&self, key: &String) -> (r: Option<&ConfigValue>)
        ensures
            match r {
                Some(x) => field(*self, key@) == Some(*x),
                None => field(*self, key@) is None,
            },
    {
        match self.untagged() {
            ConfigValue::Mapping(es) => lookup_entry(es, key),
            _ => None,
        }
    }

    pub fn as_str(&self) -> (r: Option<&str>)
        ensures
            match r {
                Some(s) => as_text(*self) == Some(s@),
                None => as_text(*self) is None,
            },
    {
        match self.untagged() {
            ConfigValue::Text(s) => Some(s.as_str()),
            _ => None,
        }
    }

    pub fn as_bool(&self) -> (r: Option<bool>)
        ensures
            r == as_flag(*self),
    {
        match self.untagged() {
            ConfigValue::Bool(b) => Some(*b),
            _ => None,
        }
    }

    pub fn as_u64(&self) -> (r: Option<u64>)
        ensures
            r == as_unsigned(*self),
    {
        match self.untagged() {
            ConfigValue::Unsigned(n) => Some(*n),
            _ => None,
        }
    }

    pub fn as_mapping(&self) -> (r: Option<&Vec<(ConfigValue, ConfigValue)>>)
        ensures
            match r {
                Some(es) => as_entries(*self) == Some(es@),
                None => as_entries(*self) is None,
            },
    {
        match self.untagged() {
            ConfigValue::Mapping(es) => Some(es),
            _ => None,
        }
    }
}

/// Why a configuration node was refused.
#[derive(Clone, Debug)]
pub enum ConfigError {
    PortNotNumber,
    PortOutOfRange,
    KeyNotString,
    MissingAddress,
    UnknownType(String),
    BadMappingValue,
    EnabledNotBool,
    NameNotString,
}

/// `ConfigError` with its text as a sequence.
pub enum ConfigFault {
    PortNotNumber,
    PortOutOfRange,
    KeyNotString,
    MissingAddress,
    UnknownType(Seq<char>),
    BadMappingValue,
    EnabledNotBool,
    NameNotString,
}

impl View for ConfigError {
    type V = ConfigFault;

    open spec fn view(&self) -> ConfigFault {
        match self {
            ConfigError::PortNotNumber => ConfigFault::PortNotNumber,
            ConfigError::PortOutOfRange => ConfigFault::PortOutOfRange,
            ConfigError::KeyNotString => ConfigFault::KeyNotString,
            ConfigError::MissingAddress => ConfigFault::MissingAddress,
            ConfigError::UnknownType(s) => ConfigFault::UnknownType(s@),
            ConfigError::BadMappingValue => ConfigFault::BadMappingValue,
            ConfigError::EnabledNotBool => ConfigFault::EnabledNotBool,
            ConfigError::NameNotString => ConfigFault::NameNotString,
        }
    }
}

pub open spec fn fault_message(f: ConfigFault) -> Seq<char> {
    match f {
        ConfigFault::PortNotNumber => "OSC port must be a number"@,
        ConfigFault::PortOutOfRange => "OSC port must be between 0 and 65535"@,
        ConfigFault::KeyNotString => "OSC mapping key must be a string"@,
        ConfigFault::MissingAddress => "OSC mapping must have 'address' field"@,
        ConfigFault::UnknownType(s) => "Unknown OSC data type: "@ + s,
        ConfigFault::BadMappingValue => "OSC mapping value must be a string or object"@,
        ConfigFault::EnabledNotBool => "Spout 'enabled' must be a boolean"@,
        ConfigFault::NameNotString => "Spout 'name' must be a string"@,
    }
}

impl ConfigError {
    /// The error as text for the user.
    pub fn message(&self) -> (r: String)
        ensures
            r@ == fault_message(self@),
    {
        match self {
            ConfigError::PortNotNumber => String::from_str("OSC port must be a number"),
            ConfigError::PortOutOfRange => String::from_str("OSC port must be between 0 and 65535"),
            ConfigError::KeyNotString => String::from_str("OSC mapping key must be a string"),
            ConfigError::MissingAddress => String::from_str(
                "OSC mapping must have 'address' field",
            ),
            ConfigError::UnknownType(s) => String::from_str("Unknown OSC data type: ").concat(
                s.as_str(),
            ),
            ConfigError::BadMappingValue => String::from_str(
                "OSC mapping value must be a string or object",
            ),
            ConfigError::EnabledNotBool => String::from_str("Spout 'enabled' must be a boolean"),
            ConfigError::NameNotString => String::from_str("Spout 'name' must be a string"),
        }
    }
}

/// How an OSC argument is handed to the shaders.
#[derive(Clone, Copy, Debug, PartialEq, Eq, Structural)]
pub enum OscDataType {
    Float,
    Int,
    Bool,
}

impl Default for OscDataType {
    fn default() -> (r: OscDataType)
        ensures
            r == OscDataType::Float,
    {
        OscDataType::Float
    }
}

/// Which OSC address feeds a uniform, and as what type.
#[derive(Clone, Debug)]
pub struct OscMapping {
    pub address: String,
    pub data_type: OscDataType,
}

/// OSC input settings: the UDP port and the uniform mappings by name. The
/// readers here give each name at most once (`mapping_names` has no
/// duplicates).
#[derive(Clone, Debug)]
pub struct OscConfig {
    pub port: u16,
    pub mappings: Vec<(String, OscMapping)>,
}

/// Port used when the document names none.
pub const DEFAULT_OSC_PORT: u16 = 9000;

impl Default for OscConfig {
    fn default() -> (r: OscConfig)
        ensures
            r.port == DEFAULT_OSC_PORT,
            r.mappings@.len() == 0,
            mapping_names(r.mappings@).no_duplicates(),
    {
        OscConfig { port: DEFAULT_OSC_PORT, mappings: Vec::new() }
    }
}

/// A mapping as name, address and type.
pub open spec fn mapping_view(e: (String, OscMapping)) -> (Seq<char>, Seq<char>, OscDataType) {
    (e.0@, e.1.address@, e.1.data_type)
}

pub open spec fn mappings_view(ms: Seq<(String, OscMapping)>) -> Seq<
    (Seq<char>, Seq<char>, OscDataType),
> {
    ms.map_values(|e: (String, OscMapping)| mapping_view(e))
}

pub open spec fn port_spec(v: ConfigValue) -> Result<u16, ConfigFault> {
    match field(v, "port"@) {
        None => Ok(DEFAULT_OSC_PORT),
        Some(p) => match as_unsigned(p) {
            None => Err(ConfigFault::PortNotNumber),
            Some(n) => if n <= 65535 {
                Ok(n as u16)
            } else {
                Err(ConfigFault::PortOutOfRange)
            },
        },
    }
}

/// The type a mapping names: `float` when it names none.
pub open spec fn data_type_spec(t: Option<Seq<char>>) -> Result<OscDataType, ConfigFault> {
    match t {
        None => Ok(OscDataType::Float),
        Some(s) => if s == "float"@ {
            Ok(OscDataType::Float)
        } else if s == "int"@ {
            Ok(OscDataType::Int)
        } else if s == "bool"@ {
            Ok(OscDataType::Bool)
        } else {
            Err(ConfigFault::UnknownType(s))
        },
    }
}

/// A mapping written as an address alone, or as a map with an `address`
/// and an optional `type`.
pub open spec fn mapping_spec(val: ConfigValue) -> Result<(Seq<char>, OscDataType), ConfigFault> {
    match val {
        ConfigValue::Text(a) => Ok((a@, OscDataType::Float)),
        ConfigValue::Mapping(es) => match text_of(entry_from(es@, "address"@, 0)) {
            None => Err(ConfigFault::MissingAddress),
            Some(a) => match data_type_spec(text_of(entry_from(es@, "type"@, 0))) {
                Ok(t) => Ok((a, t)),
                Err(e) => Err(e),
            },
        },
        _ => Err(ConfigFault::BadMappingValue),
    }
}

/// Index of the mapping named `k` at or after `i`, or -1.
pub open spec fn name_index_from(
    acc: Seq<(Seq<char>, Seq<char>, OscDataType)>,
    k: Seq<char>,
    i: int,
) -> int
    decreases acc.len() - i,
{
    if i < 0 || i >= acc.len() {
        -1
    } else if acc[i].0 == k {
        i
    } else {
        name_index_from(acc, k, i + 1)
    }
}

/// Sets the mapping named by `e`, in place when the name is there already,
/// at the end otherwise.
pub open spec fn upsert(
    acc: Seq<(Seq<char>, Seq<char>, OscDataType)>,
    e: (Seq<char>, Seq<char>, OscDataType),
) -> Seq<(Seq<char>, Seq<char>, OscDataType)> {
    let i = name_index_from(acc, e.0, 0);
    if i >= 0 {
        acc.update(i, e)
    } else {
        acc.push(e)
    }
}

/// The mappings read from the first `n` entries, or the first error.
pub open spec fn mappings_spec(es: Seq<(ConfigValue, ConfigValue)>, n: int) -> Result<
    Seq<(Seq<char>, Seq<char>, OscDataType)>,
    ConfigFault,
>
    decreases n,
{
    if n <= 0 {
        Ok(Seq::empty())
    } else {
        match mappings_spec(es, n - 1) {
            Err(e) => Err(e),
            Ok(acc) => match as_text(es[n - 1].0) {
                None => Err(ConfigFault::KeyNotString),
                Some(k) => match mapping_spec(es[n - 1].1) {
                    Ok(m) => Ok(upsert(acc, (k, m.0, m.1))),
                    Err(e) => Err(e),
                },
            },
        }
    }
}

/// The OSC settings a document describes: port, then mappings.
pub open spec fn osc_config_spec(v: ConfigValue) -> Result<
    (u16, Seq<(Seq<char>, Seq<char>, OscDataType)>),
    ConfigFault,
> {
    match port_spec(v) {
        Err(e) => Err(e),
        Ok(p) => match field(v, "mappings"@) {
            None => Ok((p, Seq::empty())),
            Some(m) => match as_entries(m) {
                None => Ok((p, Seq::empty())),
                Some(es) => match mappings_spec(es, es.len() as int) {
                    Ok(ms) => Ok((p, ms)),
                    Err(e) => Err(e),
                },
            },
        },
    }
}

impl OscDataType {
    /// The type named by a mapping's `type` field.
    pub fn from_name(name: Option<&str>) -> (r: Result<OscDataType, ConfigError>)
        ensures
            match r {
                Ok(t) => data_type_spec(
                    match name {
                        Some(s) => Some(s@),
                        None => None,
                    },
                ) == Ok::<OscDataType, ConfigFault>(t),
                Err(e) => data_type_spec(
                    match name {
                        Some(s) => Some(s@),
                        None => None,
                    },
                ) == Err::<OscDataType, ConfigFault>(e@),
            },
    {
        match name {
            None => Ok(OscDataType::Float),
            Some(s) => {
                let owned = String::from_str(s);
                let float_name = String::from_str("float");
                let int_name = String::from_str("int");
                let bool_name = String::from_str("bool");
                if owned == float_name {
                    Ok(OscDataType::Float)
                } else if owned == int_name {
                    Ok(OscDataType::Int)
                } else if owned == bool_name {
                    Ok(OscDataType::Bool)
                } else {
                    Err(ConfigError::UnknownType(owned))
                }
            },
        }
    }
}

impl OscMapping {
    /// Reads one mapping value.
    pub fn from_value(val: &ConfigValue) -> (r: Result<OscMapping, ConfigError>)
        ensures
            match r {
                Ok(m) => mapping_spec(*val) == Ok::<(Seq<char>, OscDataType), ConfigFault>(
                    (m.address@, m.data_type),
                ),
                Err(e) => mapping_spec(*val) == Err::<(Seq<char>, OscDataType), ConfigFault>(e@),
            },
    {
        match val {
            ConfigValue::Text(a) => Ok(OscMapping { address: a.clone(), data_type: OscDataType::Float }),
            ConfigValue::Mapping(es) => {
                let address_key = String::from_str("address");
                let type_key = String::from_str("type");
                let address = match lookup_entry(es, &address_key) {
                    Some(v) => v.as_str(),
                    None => None,
                };
                match address {
                    None => Err(ConfigError::MissingAddress),
                    Some(a) => {
                        let kind = match lookup_entry(es, &type_key) {
                            Some(v) => v.as_str(),
                            None => None,
                        };
                        match OscDataType::from_name(kind) {
                            Ok(t) => Ok(OscMapping { address: String::from_str(a), data_type: t }),
                            Err(e) => Err(e),
                        }
                    },
                }
            },
            _ => Err(ConfigError::BadMappingValue),
        }
    }
}

/// The uniform names of a list of mappings, in order.
pub open spec fn mapping_names(ms: Seq<(String, OscMapping)>) -> Seq<Seq<char>> {
    ms.map_values(|e: (String, OscMapping)| e.0@)
}

/// Sets `mapping` under `name`, replacing a mapping of that name.
fn upsert_mapping(ms: &mut Vec<(String, OscMapping)>, name: String, mapping: OscMapping)
    requires
        mapping_names(old(ms)@).no_duplicates(),
    ensures
        mapping_names(final(ms)@).no_duplicates(),
        mappings_view(final(ms)@) == upsert(
            mappings_view(old(ms)@),
            (name@, mapping.address@, mapping.data_type),
        ),
{
    let ghost acc = mappings_view(ms@);
    let mut i: usize = 0;
    while i < ms.len()
        invariant
            i <= ms@.len(),
            ms@ == old(ms)@,
            acc == mappings_view(ms@),
            mapping_names(ms@).no_duplicates(),
            forall|j: int| 0 <= j < i ==> (#[trigger] ms@[j]).0@ != name@,
            name_index_from(acc, name@, i as int) == name_index_from(acc, name@, 0),
        decreases ms@.len() - i,
    {
        if ms[i].0 == name {
            assert(acc[i as int] == mapping_view(ms@[i as int]));
            assert(name_index_from(acc, name@, i as int) == i as int);
            let ghost before = ms@;
            let ghost e = (name@, mapping.address@, mapping.data_type);
            ms.set(i, (name, mapping));
            assert(mappings_view(ms@) =~= mappings_view(before).update(i as int, e));
            assert(mapping_names(ms@) =~= mapping_names(before));
            return;
        }
        i = i + 1;
    }
    let ghost before = ms@;
    let ghost e = (name@, mapping.address@, mapping.data_type);
    ms.push((name, mapping));
    assert(mappings_view(ms@) =~= mappings_view(before).push(e));
    assert(mapping_names(ms@) =~= mapping_names(before).push(e.0));
    assert(mapping_names(ms@).no_duplicates()) by {
        assert forall|a: int, b: int|
            0 <= a < mapping_names(ms@).len() && 0 <= b < mapping_names(ms@).len() && a != b implies
            mapping_names(ms@)[a] != mapping_names(ms@)[b] by {
            if a == before.len() as int {
                assert(before[b] == ms@[b]);
            } else if b == before.len() as int {
                assert(before[a] == ms@[a]);
            } else {
                assert(mapping_names(before)[a] == mapping_names(ms@)[a]);
                assert(mapping_names(before)[b] == mapping_names(ms@)[b]);
            }
        }
    }
}

proof fn lemma_mappings_error_sticks(es: Seq<(ConfigValue, ConfigValue)>, n: int, m: int)
    requires
        0 <= n <= m,
        mappings_spec(es, n) is Err,
    ensures
        mappings_spec(es, m) == mappings_spec(es, n),
    decreases m - n,
{
    if n < m {
        lemma_mappings_error_sticks(es, n, m - 1);
    }
}

impl OscConfig {
    /// Reads the OSC settings from a configuration node: `port` (default
    /// 9000) and `mappings`, from uniform name to an address or to a map of
    /// `address` and `type`.
    pub fn from_yaml(value: &ConfigValue) -> (r: Result<OscConfig, ConfigError>)
        ensures
            match r {
                Ok(c) => osc_config_spec(*value) == Ok::<
                    (u16, Seq<(Seq<char>, Seq<char>, OscDataType)>),
                    ConfigFault,
                >((c.port, mappings_view(c.mappings@))) && mapping_names(
                    c.mappings@,
                ).no_duplicates(),
                Err(e) => osc_config_spec(*value) == Err::<
                    (u16, Seq<(Seq<char>, Seq<char>, OscDataType)>),
                    ConfigFault,
                >(e@),
            },
    {
        let port_key = String::from_str("port");
        let mappings_key = String::from_str("mappings");
        let port: u16 = match value.get(&port_key) {
            None => DEFAULT_OSC_PORT,
            Some(p) => match p.as_u64() {
                None => return Err(ConfigError::PortNotNumber),
                Some(n) => if n <= 65535 {
                    n as u16
                } else {
                    return Err(ConfigError::PortOutOfRange);
                },
            },
        };
        let mut mappings: Vec<(String, OscMapping)> = Vec::new();
        let es = match value.get(&mappings_key) {
            None => {
                assert(mappings_view(mappings@) =~= Seq::empty());
                assert(mapping_names(mappings@) =~= Seq::empty());
                return Ok(OscConfig { port, mappings });
            },
            Some(m) => match m.as_mapping() {
                None => {
                    assert(mappings_view(mappings@) =~= Seq::empty());
                    assert(mapping_names(mappings@) =~= Seq::empty());
                    return Ok(OscConfig { port, mappings });
                },
                Some(es) => es,
            },
        };
        assert(mappings_view(mappings@) =~= Seq::empty());
        assert(mapping_names(mappings@) =~= Seq::empty());
        let mut i: usize = 0;
        while i < es.len()
            invariant
                i <= es@.len(),
                osc_config_spec(*value) == match mappings_spec(es@, es@.len() as int) {
                    Ok(ms) => Ok((port, ms)),
                    Err(e) => Err(e),
                },
                mappings_spec(es@, i as int) == Ok::<
                    Seq<(Seq<char>, Seq<char>, OscDataType)>,
                    ConfigFault,
                >(mappings_view(mappings@)),
                mapping_names(mappings@).no_duplicates(),
            decreases es@.len() - i,
        {
            let name = match es[i].0.as_str() {
                Some(k) => String::from_str(k),
                None => {
                    proof {
                        lemma_mappings_error_sticks(es@, i + 1, es@.len() as int);
                    }
                    return Err(ConfigError::KeyNotString);
                },
            };
            let mapping = match OscMapping::from_value(&es[i].1) {
                Ok(m) => m,
                Err(e) => {
                    proof {
                        lemma_mappings_error_sticks(es@, i + 1, es@.len() as int);
                    }
                    return Err(e);
                },
            };
            upsert_mapping(&mut mappings, name, mapping);
            i = i + 1;
        }
        Ok(OscConfig { port, mappings })
    }
}

/// Settings of the publish path.
#[derive(Clone, Debug)]
pub struct SpoutConfig {
    pub enabled: bool,
    pub sender_name: String,
}

impl Default for SpoutConfig {
    fn default() -> (r: SpoutConfig)
        ensures
            !r.enabled,
            r.sender_name@ == "Sh4derJockey"@,
    {
        SpoutConfig { enabled: false, sender_name: String::from_str("Sh4derJockey") }
    }
}

/// The publish settings a document describes: `enabled` (default off) and
/// `name` (default `Sh4derJockey`).
pub open spec fn spout_config_spec(v: ConfigValue) -> Result<(bool, Seq<char>), ConfigFault> {
    let enabled = match field(v, "enabled"@) {
        None => Ok(false),
        Some(e) => match as_flag(e) {
            Some(b) => Ok(b),
            None => Err(ConfigFault::EnabledNotBool),
        },
    };
    match enabled {
        Err(e) => Err(e),
        Ok(b) => match field(v, "name"@) {
            None => Ok((b, "Sh4derJockey"@)),
            Some(n) => match as_text(n) {
                Some(s) => Ok((b, s)),
                None => Err(ConfigFault::NameNotString),
            },
        },
    }
}

impl SpoutConfig {
    /// Reads the publish settings from a configuration node.
    pub fn from_yaml(value: &ConfigValue) -> (r: Result<SpoutConfig, ConfigError>)
        ensures
            match r {
                Ok(c) => spout_config_spec(*value) == Ok::<(bool, Seq<char>), ConfigFault>(
                    (c.enabled, c.sender_name@),
                ),
                Err(e) => spout_config_spec(*value) == Err::<(bool, Seq<char>), ConfigFault>(e@),
            },
    {
        let mut config = SpoutConfig::default();
        let enabled_key = String::from_str("enabled");
        let name_key = String::from_str("name");
        match value.get(&enabled_key) {
            None => {},
            Some(e) => match e.as_bool() {
                Some(b) => config.enabled = b,
                None => return Err(ConfigError::EnabledNotBool),
            },
        }
        match value.get(&name_key) {
            None => {},
            Some(n) => match n.as_str() {
                Some(s) => config.sender_name = String::from_str(s),
                None => return Err(ConfigError::NameNotString),
            },
        }
        Ok(config)
    }
}

} // verus!
