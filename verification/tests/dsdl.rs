use dsdl_parser::ast::dsdl::parse_file;
use dsdl_parser::ast::dsdl::ReadError;
use dsdl_parser::ast::file_name::ParseFileNameError;
use dsdl_parser::AttributeDefinition;
use dsdl_parser::Comment;
use dsdl_parser::ConstDefinition;
use dsdl_parser::FieldDefinition;
use dsdl_parser::File;
use dsdl_parser::FileName;
use dsdl_parser::Ident;
use dsdl_parser::Line;
use dsdl_parser::Lit;
use dsdl_parser::MessageDefinition;
use dsdl_parser::PrimitiveType;
use dsdl_parser::Sign;
use dsdl_parser::Ty;
use dsdl_parser::TypeDefinition;
use dsdl_parser::DSDL;

const NODE_STATUS: &str = "#
# Abstract node status information.
#
# Any UAVCAN node is required to publish this message periodically.
#

#
# Publication period may vary within these limits.
# It is NOT recommended to change it at run time.
#
uint16 MAX_BROADCASTING_PERIOD_MS = 1000
uint16 MIN_BROADCASTING_PERIOD_MS = 2

#
# If a node fails to publish this message in this amount of time, it should be considered offline.
#
uint16 OFFLINE_TIMEOUT_MS = 3000

#
# Uptime counter should never overflow.
# Other nodes may detect that a remote node has restarted when this value goes backwards.
#
uint32 uptime_sec

#
# Abstract node health.
#
uint2 HEALTH_OK         = 0     # The node is functioning properly.
uint2 HEALTH_WARNING    = 1     # A critical parameter went out of range or the node encountered a minor failure.
uint2 HEALTH_ERROR      = 2     # The node encountered a major failure.
uint2 HEALTH_CRITICAL   = 3     # The node suffered a fatal malfunction.
uint2 health

#
# Current mode.
#
# Mode OFFLINE can be actually reported by the node to explicitly inform other network
# participants that the sending node is about to shutdown. In this case other nodes will not
# have to wait OFFLINE_TIMEOUT_MS before they detect that the node is no longer available.
#
# Reserved values can be used in future revisions of the specification.
#
uint3 MODE_OPERATIONAL      = 0         # Normal operating mode.
uint3 MODE_INITIALIZATION   = 1         # Initialization is in progress; this mode is entered immediately after startup.
uint3 MODE_MAINTENANCE      = 2         # E.g. calibration, the bootloader is running, etc.
uint3 MODE_SOFTWARE_UPDATE  = 3         # New software/firmware is being loaded.
uint3 MODE_OFFLINE          = 7         # The node is no longer available.
uint3 mode

#
# Not used currently, keep zero when publishing, ignore when receiving.
#
uint3 sub_mode

#
# Optional, vendor-specific node status code, e.g. a fault code or a status bitmask.
#
uint16 vendor_specific_status_code
";

const CAN_IFACE_STATS: &str = "#
# Single CAN iface statistics.
#

uint48 frames_tx    # Number of transmitted frames
uint48 frames_rx    # Number of received frames
uint48 errors       # Number of errors
";

const GET_TRANSPORT_STATS: &str = "#
# Get transport statistics.
#

---

uint48 transfers_tx
uint48 transfers_rx
uint48 transfer_errors

CANIfaceStats[<=3] can_iface_stats
";

const SOFTWARE_VERSION: &str = "#
# Generic software version information.
#
uint8 major
uint8 minor

uint8 OPTIONAL_FIELD_FLAG_VCS_COMMIT = 1
uint8 OPTIONAL_FIELD_FLAG_IMAGE_CRC  = 2
uint8 optional_field_flags

uint32 vcs_commit

uint64 image_crc
";

const HARDWARE_VERSION: &str = "#
# Generic hardware version information.
#
uint8 major
uint8 minor

uint8[16] unique_id

uint8[<=255] certificate_of_authenticity
";

const GET_NODE_INFO: &str = "#
# Full node info request.
#

---

NodeStatus status

SoftwareVersion software_version
HardwareVersion hardware_version

uint8[<=80] name
";

const ACCESS_COMMAND_SHELL: &str = "uint8 FLAG_RESET_SHELL = 1
uint8 FLAG_CLEAR_OUTPUT_BUFFERS = 2
uint8 FLAG_READ_STDOUT = 4
uint8 FLAG_READ_STDERR = 8
uint8 flags

uint8[<=128] input

---

int32 last_exit_status

uint8 FLAG_RUNNING = 1
uint8 FLAG_SHELL_ERROR = 2
uint8 FLAG_HAS_PENDING_STDOUT = 64
uint8 FLAG_HAS_PENDING_STDERR = 128
uint8 flags

uint8[<=256] output
";

const ACTUATOR_COMMAND: &str = "uint8 actuator_id

uint8 COMMAND_TYPE_UNITLESS     = 0
uint8 COMMAND_TYPE_POSITION     = 1
uint8 COMMAND_TYPE_FORCE        = 2
uint8 COMMAND_TYPE_SPEED        = 3
uint8 command_type

float16 command_value
";

const ACTUATOR_STATUS: &str = "uint8 actuator_id

float16 position        # meter or radian
float16 force           # Newton or Newton metre
float16 speed           # meter per second or radian per second

void1
uint7 POWER_RATING_PCT_UNKNOWN = 127
uint7 power_rating_pct
";

const PARAM_EMPTY: &str = "#
# Ex nihilo nihil fit.
#
";

const PARAM_VALUE: &str = "#
# Single parameter value.
#
# This is a union, which means that this structure can contain either one of the fields below.
# The structure is prefixed with tag - a selector value that indicates which particular field is encoded.
#

@union                                  # Tag is 3 bits long, so outer structure has 5-bit prefix to ensure proper alignment

Empty empty                             # Empty field, used to represent an undefined value.

int64   integer_value

float32 real_value                      # 32-bit type is used to simplify implementation on low-end systems

uint8   boolean_value                   # 8-bit value is used for alignment reasons

uint8[<=128] string_value               # Length prefix is exactly one byte long, which ensures proper alignment of payload
";

fn sources() -> Vec<(&'static str, &'static str)> {
    vec![
        ("uavcan.protocol.341.NodeStatus.uavcan", NODE_STATUS),
        ("uavcan.protocol.CANIfaceStats.uavcan", CAN_IFACE_STATS),
        ("uavcan.protocol.4.GetTransportStats.uavcan", GET_TRANSPORT_STATS),
        ("uavcan.protocol.SoftwareVersion.uavcan", SOFTWARE_VERSION),
        ("uavcan.protocol.HardwareVersion.uavcan", HARDWARE_VERSION),
        ("uavcan.protocol.1.GetNodeInfo.uavcan", GET_NODE_INFO),
        ("uavcan.protocol.6.AccessCommandShell.uavcan", ACCESS_COMMAND_SHELL),
        ("uavcan.equipment.actuator.1010.Command.uavcan", ACTUATOR_COMMAND),
        ("uavcan.equipment.actuator.1011.Status.uavcan", ACTUATOR_STATUS),
        ("uavcan.protocol.param.Empty.uavcan", PARAM_EMPTY),
        ("uavcan.protocol.param.Value.uavcan", PARAM_VALUE),
    ]
}

fn protocol() -> DSDL {
    let mut dsdl = DSDL::new();
    for (name, text) in sources() {
        dsdl.read_file(name, text).unwrap();
    }
    dsdl
}

fn comment(text: &str) -> Line {
    Line::Comment(Comment::from_str(text).unwrap())
}

fn constant(ty: PrimitiveType, name: &str, value: &str, c: Option<&str>) -> Line {
    Line::Definition {
        definition: AttributeDefinition::Const(ConstDefinition {
            cast_mode: None,
            field_type: Ty::Primitive(ty),
            name: Ident::from_str(name).unwrap(),
            literal: Lit::Dec { sign: Sign::Implicit, value: String::from(value) },
        }),
        comment: c.map(|c| Comment::from_str(c).unwrap()),
    }
}

fn field(ty: PrimitiveType, name: &str) -> Line {
    Line::Definition {
        definition: AttributeDefinition::Field(FieldDefinition {
            cast_mode: None,
            field_type: Ty::Primitive(ty),
            array: None,
            name: Some(Ident::from_str(name).unwrap()),
        }),
        comment: None,
    }
}

#[test]
fn read_dsdl() {
    let _dsdl = protocol();
}

#[test]
fn read_node_status() {
    let mut dsdl = DSDL::new();
    dsdl.read_file("341.NodeStatus.uavcan", NODE_STATUS).unwrap();
    assert_eq!(
        dsdl.get_file("NodeStatus").unwrap(),
        &File {
            name: FileName { id: Some(341), namespace: String::from(""), name: String::from("NodeStatus"), version: None },
            definition: TypeDefinition::Message(MessageDefinition(vec![
                comment("#"),
                comment("# Abstract node status information."),
                comment("#"),
                comment("# Any UAVCAN node is required to publish this message periodically."),
                comment("#"),
                Line::Empty,
                comment("#"),
                comment("# Publication period may vary within these limits."),
                comment("# It is NOT recommended to change it at run time."),
                comment("#"),
                constant(PrimitiveType::Uint16, "MAX_BROADCASTING_PERIOD_MS", "1000", None),
                constant(PrimitiveType::Uint16, "MIN_BROADCASTING_PERIOD_MS", "2", None),
                Line::Empty,
                comment("#"),
                comment("# If a node fails to publish this message in this amount of time, it should be considered offline."),
                comment("#"),
                constant(PrimitiveType::Uint16, "OFFLINE_TIMEOUT_MS", "3000", None),
                Line::Empty,
                comment("#"),
                comment("# Uptime counter should never overflow."),
                comment("# Other nodes may detect that a remote node has restarted when this value goes backwards."),
                comment("#"),
                field(PrimitiveType::Uint32, "uptime_sec"),
                Line::Empty,
                comment("#"),
                comment("# Abstract node health."),
                comment("#"),
                constant(PrimitiveType::Uint2, "HEALTH_OK", "0", Some("# The node is functioning properly.")),
                constant(PrimitiveType::Uint2, "HEALTH_WARNING", "1", Some("# A critical parameter went out of range or the node encountered a minor failure.")),
                constant(PrimitiveType::Uint2, "HEALTH_ERROR", "2", Some("# The node encountered a major failure.")),
                constant(PrimitiveType::Uint2, "HEALTH_CRITICAL", "3", Some("# The node suffered a fatal malfunction.")),
                field(PrimitiveType::Uint2, "health"),
                Line::Empty,
                comment("#"),
                comment("# Current mode."),
                comment("#"),
                comment("# Mode OFFLINE can be actually reported by the node to explicitly inform other network"),
                comment("# participants that the sending node is about to shutdown. In this case other nodes will not"),
                comment("# have to wait OFFLINE_TIMEOUT_MS before they detect that the node is no longer available."),
                comment("#"),
                comment("# Reserved values can be used in future revisions of the specification."),
                comment("#"),
                constant(PrimitiveType::Uint3, "MODE_OPERATIONAL", "0", Some("# Normal operating mode.")),
                constant(PrimitiveType::Uint3, "MODE_INITIALIZATION", "1", Some("# Initialization is in progress; this mode is entered immediately after startup.")),
                constant(PrimitiveType::Uint3, "MODE_MAINTENANCE", "2", Some("# E.g. calibration, the bootloader is running, etc.")),
                constant(PrimitiveType::Uint3, "MODE_SOFTWARE_UPDATE", "3", Some("# New software/firmware is being loaded.")),
                constant(PrimitiveType::Uint3, "MODE_OFFLINE", "7", Some("# The node is no longer available.")),
                field(PrimitiveType::Uint3, "mode"),
                Line::Empty,
                comment("#"),
                comment("# Not used currently, keep zero when publishing, ignore when receiving."),
                comment("#"),
                field(PrimitiveType::Uint3, "sub_mode"),
                Line::Empty,
                comment("#"),
                comment("# Optional, vendor-specific node status code, e.g. a fault code or a status bitmask."),
                comment("#"),
                field(PrimitiveType::Uint16, "vendor_specific_status_code"),
            ])),
        }
    );
}

#[test]
fn normalize_node_status() {
    let dsdl = protocol();
    assert_eq!(
        dsdl.get_file("uavcan.protocol.NodeStatus").unwrap().clone().normalize().to_string(),
        "uavcan.protocol.NodeStatus
saturated uint32 uptime_sec
saturated uint2 health
saturated uint3 mode
saturated uint3 sub_mode
saturated uint16 vendor_specific_status_code"
    );
}

#[test]
fn normalize_get_node_info() {
    let dsdl = protocol();
    assert_eq!(
        dsdl.get_file("uavcan.protocol.GetNodeInfo").unwrap().clone().normalize().to_string(),
        "uavcan.protocol.GetNodeInfo
---
uavcan.protocol.NodeStatus status
uavcan.protocol.SoftwareVersion software_version
uavcan.protocol.HardwareVersion hardware_version
saturated uint8[<=80] name"
    );
}

#[test]
fn normalize_actuator_status() {
    let dsdl = protocol();
    assert_eq!(
        dsdl.get_file("uavcan.equipment.actuator.Status").unwrap().clone().normalize().to_string(),
        "uavcan.equipment.actuator.Status
saturated uint8 actuator_id
saturated float16 position
saturated float16 force
saturated float16 speed
void1
saturated uint7 power_rating_pct"
    );
}

#[test]
fn normalize_get_transport_stats() {
    let dsdl = protocol();
    assert_eq!(
        dsdl.get_file("uavcan.protocol.GetTransportStats").unwrap().clone().normalize().to_string(),
        "uavcan.protocol.GetTransportStats
---
saturated uint48 transfers_tx
saturated uint48 transfers_rx
saturated uint48 transfer_errors
uavcan.protocol.CANIfaceStats[<=3] can_iface_stats"
    );
}

#[test]
fn verify_dsdl_signature() {
    let dsdl = protocol();
    assert_eq!(
        dsdl.get_file("uavcan.protocol.NodeStatus").unwrap().clone().normalize().dsdl_signature(),
        0x0f0868d0c1a7c6f1
    );
    assert_eq!(
        dsdl.get_file("uavcan.protocol.AccessCommandShell").unwrap().clone().normalize().dsdl_signature(),
        0x59276b5921c9246e
    );
    assert_eq!(
        dsdl.get_file("uavcan.equipment.actuator.Command").unwrap().clone().normalize().dsdl_signature(),
        0x8d9a6a920c1d616c
    );
    assert_eq!(
        dsdl.get_file("uavcan.equipment.actuator.Status").unwrap().clone().normalize().dsdl_signature(),
        0x5e9bba44faf1ea04
    );
    assert_eq!(
        dsdl.get_file("uavcan.protocol.GetNodeInfo").unwrap().clone().normalize().dsdl_signature(),
        0xa80dc8995053e685
    );
    assert_eq!(
        dsdl.get_file("uavcan.protocol.param.Value").unwrap().clone().normalize().dsdl_signature(),
        0xc3d96f448f2b00a1
    );
}

#[test]
fn verify_data_type_signature() {
    let dsdl = protocol();
    assert_eq!(dsdl.data_type_signature("uavcan.protocol.NodeStatus").unwrap(), 0x0f0868d0c1a7c6f1);
    assert_eq!(dsdl.data_type_signature("uavcan.protocol.CANIfaceStats").unwrap(), 0x13b106f0c44ca350);
    assert_eq!(dsdl.data_type_signature("uavcan.protocol.GetTransportStats").unwrap(), 0xbe6f76a7ec312b04);
    assert_eq!(dsdl.data_type_signature("uavcan.protocol.GetNodeInfo").unwrap(), 0xee468a8121c46a9e);
}

#[test]
fn data_type_signature_of_a_missing_type() {
    let dsdl = protocol();
    assert_eq!(dsdl.data_type_signature("uavcan.protocol.Missing"), None);
    let mut partial = DSDL::new();
    partial.read_file("uavcan.protocol.4.GetTransportStats.uavcan", GET_TRANSPORT_STATS).unwrap();
    assert_eq!(partial.data_type_signature("uavcan.protocol.GetTransportStats"), None);
}

#[test]
fn data_type_signature_of_types_that_nest_in_a_loop() {
    let mut dsdl = DSDL::new();
    dsdl.read_file("a.A.uavcan", "B b\n").unwrap();
    dsdl.read_file("a.B.uavcan", "A a\n").unwrap();
    assert_eq!(dsdl.data_type_signature("a.A"), None);
    dsdl.read_file("a.C.uavcan", "uint8 c\n").unwrap();
    assert!(dsdl.data_type_signature("a.C").is_some());
}

#[test]
fn data_type_signature_extends_the_dsdl_signature() {
    // A type with one nested type: its DSDL signature, extended with the nested type's.
    let mut dsdl = DSDL::new();
    dsdl.read_file("a.Inner.uavcan", "uint8 x\n").unwrap();
    dsdl.read_file("a.Outer.uavcan", "Inner inner\n").unwrap();
    let inner = dsdl.data_type_signature("a.Inner").unwrap();
    let outer_dsdl = dsdl.get_file("a.Outer").unwrap().clone().normalize().dsdl_signature();
    let mut crc = dsdl_parser::crc::CRC64WE::from_value(outer_dsdl);
    crc.extend(inner);
    assert_eq!(dsdl.data_type_signature("a.Outer"), Some(crc.value()));
    assert_eq!(inner, dsdl.get_file("a.Inner").unwrap().clone().normalize().dsdl_signature());
}

#[test]
fn get_file_finds_the_first_of_a_name() {
    let mut dsdl = DSDL::new();
    assert!(dsdl.get_file("a.X").is_none());
    dsdl.read_file("a.1.X.uavcan", "uint8 first\n").unwrap();
    dsdl.read_file("a.2.X.uavcan", "uint8 second\n").unwrap();
    assert_eq!(dsdl.files().len(), 2);
    assert_eq!(dsdl.get_file("a.X").unwrap().name.id, Some(1));
    assert!(dsdl.get_file("X").is_none());
}

#[test]
fn read_errors() {
    let mut dsdl = DSDL::new();
    assert_eq!(
        dsdl.read_file("a.X.txt", "uint8 a\n"),
        Err(ReadError::FileName(ParseFileNameError::MissingExtension))
    );
    assert!(matches!(dsdl.read_file("a.X.uavcan", "uint8 a b\n"), Err(ReadError::Definition(_))));
    assert_eq!(dsdl.files().len(), 0);
    assert!(matches!(parse_file("uavcan", "uint8 a\n"), Err(ReadError::FileName(ParseFileNameError::Format))));
    let f = parse_file("a.X.uavcan", "uint8 a\n").unwrap();
    dsdl.add_file(f.clone());
    assert_eq!(dsdl.files(), &vec![f]);
}

#[test]
fn normalized_file_keeps_the_file() {
    let f = parse_file("ns.7.T.uavcan", "# c\nuint8 A = 1\ntruncated int3[<4] x # y\n@union\nint3[<4] y\nvoid3[<2]\n").unwrap();
    let n = f.clone().normalize();
    assert_eq!(n.as_file().name, f.name);
    assert_eq!(n.to_string(), "ns.T\ntruncated int3[<=3] x\n@union\nsaturated int3[<=3] y\nvoid3[<=1]");
    assert_eq!(n.clone().into_file().name, f.name);
    let mut crc = dsdl_parser::crc::CRC64WE::new();
    crc.add(n.to_string().as_bytes());
    assert_eq!(n.dsdl_signature(), crc.value());
    // Normalizing again changes nothing.
    assert_eq!(n.clone().into_file().normalize(), n);
}

#[test]
fn parse_protocol() {
    let mut dsdl = DSDL::new();
    for (name, text) in sources().into_iter().filter(|(n, _)| n.starts_with("uavcan.protocol.")) {
        dsdl.read_file(name, text).unwrap();
    }
    assert_eq!(dsdl.files().len(), 9);
}

#[test]
fn parse_dsdl() {
    let dsdl = protocol();
    assert_eq!(dsdl.files().len(), sources().len());
}

#[test]
fn verify_display() {
    let dsdl = protocol();
    for (file, (_, text)) in dsdl.files().iter().zip(sources()) {
        let shown = file.definition.to_string();
        assert_eq!(
            shown.split_whitespace().collect::<Vec<_>>(),
            text.split_whitespace().collect::<Vec<_>>(),
            "Parsed file not equivalent to read file"
        );
    }
}

#[test]
fn normalize_turns_every_less_than_limit_into_at_most() {
    let mut dsdl = DSDL::new();
    dsdl.read_file("ns.X.uavcan", "truncated uint8[<5] data\nother.T[<3] t\nsaturated int4[<=2] k\n").unwrap();
    let normalized = dsdl.get_file("ns.X").unwrap().clone().normalize();
    assert_eq!(
        normalized.to_string(),
        "ns.X\ntruncated uint8[<=4] data\nother.T[<=2] t\nsaturated int4[<=2] k"
    );
}
