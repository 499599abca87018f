//! The SQL data types that the server knows, with the object identifier,
//! the name and the storage size that the wire protocol reports for each.

use vstd::prelude::*;
use crate::text::str_eq;

verus! {

#[derive(PartialEq, Eq, Clone, Copy, Debug, Hash, Structural)]
pub enum SqlType {
    /// BOOL - boolean, 'true'/'false'
    Bool,
    /// BYTEA - variable-length string, binary values escaped
    Bytea,
    /// CHAR - single character
    Char,
    /// NAME - 63-byte type for storing system identifiers
    Name,
    /// INT8 - ~18 digit integer, 8-byte storage
    Int8,
    /// INT2 - -32 thousand to 32 thousand, 2-byte storage
    Int2,
    /// INT2VECTOR - array of int2, used in system tables
    Int2Vector,
    /// INT4 - -2 billion to 2 billion integer, 4-byte storage
    Int4,
    /// REGPROC - registered procedure
    Regproc,
    /// TEXT - variable-length string, no limit specified
    Text,
    /// OID - object identifier(oid), maximum 4 billion
    Oid,
    /// TID - (block, offset), physical location of tuple
    Tid,
    /// XID - transaction id
    Xid,
    /// CID - command identifier type, sequence in transaction id
    Cid,
    /// OIDVECTOR - array of oids, used in system tables
    OidVector,
    /// PG_DDL_COMMAND - internal type for passing CollectedCommand
    PgDdlCommand,
    /// PG_TYPE
    PgType,
    /// PG_ATTRIBUTE
    PgAttribute,
    /// PG_PROC
    PgProc,
    /// PG_CLASS
    PgClass,
    /// JSON - JSON stored as text
    Json,
    /// XML - XML content
    Xml,
    /// PG_NODE_TREE - string representing an internal node tree
    PgNodeTree,
    /// TABLE_AM_HANDLER
    TableAmHandler,
    /// INDEX_AM_HANDLER - pseudo-type for the result of an index AM handler function
    IndexAmHandler,
    /// POINT - geometric point '(x, y)'
    Point,
    /// LSEG - geometric line segment '(pt1,pt2)'
    Lseg,
    /// PATH - geometric path '(pt1,...)'
    Path,
    /// BOX - geometric box '(lower left,upper right)'
    Box,
    /// POLYGON - geometric polygon '(pt1,...)'
    Polygon,
    /// LINE - geometric line
    Line,
    /// CIDR - network IP address/netmask, network address
    Cidr,
    /// FLOAT4 - single-precision floating point number, 4-byte storage
    Float4,
    /// FLOAT8 - double-precision floating point number, 8-byte storage
    Float8,
    /// UNKNOWN - pseudo-type representing an undetermined type
    Unknown,
    /// CIRCLE - geometric circle '(center,radius)'
    Circle,
    /// MACADDR8 - XX:XX:XX:XX:XX:XX:XX:XX, MAC address
    Macaddr8,
    /// MONEY - monetary amounts, $d,ddd.cc
    Money,
    /// MACADDR - XX:XX:XX:XX:XX:XX, MAC address
    Macaddr,
    /// INET - IP address/netmask, host address, netmask optional
    Inet,
    /// ACLITEM - access control list
    Aclitem,
    /// BPCHAR - char(length), blank-padded string, fixed storage length
    Bpchar,
    /// VARCHAR - varchar(length), non-blank-padded string, variable storage length
    Varchar,
    /// DATE - date
    Date,
    /// TIME - time of day
    Time,
    /// TIMESTAMP - date and time
    Timestamp,
    /// TIMESTAMPTZ - date and time with time zone
    Timestamptz,
    /// INTERVAL - @ <number> <units>, time interval
    Interval,
    /// TIMETZ - time of day with time zone
    Timetz,
    /// BIT - fixed-length bit string
    Bit,
    /// VARBIT - variable-length bit string
    Varbit,
    /// NUMERIC - numeric(precision, decimal), arbitrary precision number
    Numeric,
    /// REFCURSOR - reference to cursor (portal name)
    Refcursor,
    /// REGPROCEDURE - registered procedure (with args)
    Regprocedure,
    /// REGOPER - registered operator
    Regoper,
    /// REGOPERATOR - registered operator (with args)
    Regoperator,
    /// REGCLASS - registered class
    Regclass,
    /// REGTYPE - registered type
    Regtype,
    /// RECORD - pseudo-type representing any composite type
    Record,
    /// CSTRING - C-style string
    Cstring,
    /// ANY - pseudo-type representing any type
    Any,
    /// ANYARRAY - pseudo-type representing a polymorphic array type
    Anyarray,
    /// VOID - pseudo-type for the result of a function with no real result
    Void,
    /// TRIGGER - pseudo-type for the result of a trigger function
    Trigger,
    /// LANGUAGE_HANDLER - pseudo-type for the result of a language handler function
    LanguageHandler,
    /// INTERNAL - pseudo-type representing an internal data structure
    Internal,
    /// OPAQUE - obsolete, deprecated pseudo-type
    Opaque,
    /// ANYELEMENT - pseudo-type representing a polymorphic base type
    Anyelement,
    /// RECORD[]
    RecordArray,
    /// ANYNONARRAY - pseudo-type representing a polymorphic base type that is not an array
    Anynonarray,
    /// UUID - UUID datatype
    Uuid,
    /// TXID_SNAPSHOT - txid snapshot
    TxidSnapshot,
    /// FDW_HANDLER - pseudo-type for the result of an FDW handler function
    FdwHandler,
    /// PG_LSN - PostgreSQL LSN datatype
    PgLsn,
    /// TSM_HANDLER - pseudo-type for the result of a tablesample method function
    TsmHandler,
    /// PG_NDISTINCT - multivariate ndistinct coefficients
    PgNdistinct,
    /// PG_DEPENDENCIES - multivariate dependencies
    PgDependencies,
    /// ANYENUM - pseudo-type representing a polymorphic base type that is an enum
    Anyenum,
    /// TSVECTOR - text representation for text search
    TsVector,
    /// TSQUERY - query representation for text search
    Tsquery,
    /// GTSVECTOR - GiST index internal text representation for text search
    GtsVector,
    /// REGCONFIG - registered text search configuration
    Regconfig,
    /// REGDICTIONARY - registered text search dictionary
    Regdictionary,
    /// JSONB - Binary JSON
    Jsonb,
    /// ANYRANGE - pseudo-type representing a polymorphic base type that is a range
    AnyRange,
    /// EVENT_TRIGGER - pseudo-type for the result of an event trigger function
    EventTrigger,
    /// INT4RANGE - range of integers
    Int4Range,
    /// NUMRANGE - range of numerics
    NumRange,
    /// TSRANGE - range of timestamps without time zone
    TsRange,
    /// TSTZRANGE - range of timestamps with time zone
    TstzRange,
    /// DATERANGE - range of dates
    DateRange,
    /// INT8RANGE - range of bigints
    Int8Range,
    /// JSONPATH - JSON path
    Jsonpath,
    /// REGNAMESPACE - registered namespace
    Regnamespace,
    /// REGROLE - registered role
    Regrole,
    /// PG_MCV_LIST - multivariate MCV list
    PgMcvList,
}

impl SqlType {
    /// The object identifier of the type.
    pub open spec fn spec_oid(self) -> int {
        match self {
            SqlType::Bool => 16,
            SqlType::Bytea => 17,
            SqlType::Char => 18,
            SqlType::Name => 19,
            SqlType::Int8 => 20,
            SqlType::Int2 => 21,
            SqlType::Int2Vector => 22,
            SqlType::Int4 => 23,
            SqlType::Regproc => 24,
            SqlType::Text => 25,
            SqlType::Oid => 26,
            SqlType::Tid => 27,
            SqlType::Xid => 28,
            SqlType::Cid => 29,
            SqlType::OidVector => 30,
            SqlType::PgDdlCommand => 32,
            SqlType::PgType => 71,
            SqlType::PgAttribute => 75,
            SqlType::PgProc => 81,
            SqlType::PgClass => 83,
            SqlType::Json => 114,
            SqlType::Xml => 142,
            SqlType::PgNodeTree => 194,
            SqlType::TableAmHandler => 269,
            SqlType::IndexAmHandler => 325,
            SqlType::Point => 600,
            SqlType::Lseg => 601,
            SqlType::Path => 602,
            SqlType::Box => 603,
            SqlType::Polygon => 604,
            SqlType::Line => 628,
            SqlType::Cidr => 650,
            SqlType::Float4 => 700,
            SqlType::Float8 => 701,
            SqlType::Unknown => 705,
            SqlType::Circle => 718,
            SqlType::Macaddr8 => 774,
            SqlType::Money => 790,
            SqlType::Macaddr => 829,
            SqlType::Inet => 869,
            SqlType::Aclitem => 1033,
            SqlType::Bpchar => 1042,
            SqlType::Varchar => 1043,
            SqlType::Date => 1082,
            SqlType::Time => 1083,
            SqlType::Timestamp => 1114,
            SqlType::Timestamptz => 1184,
            SqlType::Interval => 1186,
            SqlType::Timetz => 1266,
            SqlType::Bit => 1560,
            SqlType::Varbit => 1562,
            SqlType::Numeric => 1700,
            SqlType::Refcursor => 1790,
            SqlType::Regprocedure => 2202,
            SqlType::Regoper => 2203,
            SqlType::Regoperator => 2204,
            SqlType::Regclass => 2205,
            SqlType::Regtype => 2206,
            SqlType::Record => 2249,
            SqlType::Cstring => 2275,
            SqlType::Any => 2276,
            SqlType::Anyarray => 2277,
            SqlType::Void => 2278,
            SqlType::Trigger => 2279,
            SqlType::LanguageHandler => 2280,
            SqlType::Internal => 2281,
            SqlType::Opaque => 2282,
            SqlType::Anyelement => 2283,
            SqlType::RecordArray => 2287,
            SqlType::Anynonarray => 2776,
            SqlType::Uuid => 2950,
            SqlType::TxidSnapshot => 2970,
            SqlType::FdwHandler => 3115,
            SqlType::PgLsn => 3220,
            SqlType::TsmHandler => 3310,
            SqlType::PgNdistinct => 3361,
            SqlType::PgDependencies => 3402,
            SqlType::Anyenum => 3500,
            SqlType::TsVector => 3614,
            SqlType::Tsquery => 3615,
            SqlType::GtsVector => 3642,
            SqlType::Regconfig => 3734,
            SqlType::Regdictionary => 3769,
            SqlType::Jsonb => 3802,
            SqlType::AnyRange => 3831,
            SqlType::EventTrigger => 3838,
            SqlType::Int4Range => 3904,
            SqlType::NumRange => 3906,
            SqlType::TsRange => 3908,
            SqlType::TstzRange => 3910,
            SqlType::DateRange => 3912,
            SqlType::Int8Range => 3926,
            SqlType::Jsonpath => 4072,
            SqlType::Regnamespace => 4089,
            SqlType::Regrole => 4096,
            SqlType::PgMcvList => 5017,
        }
    }

    /// The name of the type, as the catalog spells it.
    pub open spec fn spec_name(self) -> Seq<char> {
        match self {
            SqlType::Bool => "bool"@,
            SqlType::Bytea => "bytea"@,
            SqlType::Char => "char"@,
            SqlType::Name => "name"@,
            SqlType::Int8 => "int8"@,
            SqlType::Int2 => "int2"@,
            SqlType::Int2Vector => "int2vector"@,
            SqlType::Int4 => "int4"@,
            SqlType::Regproc => "regproc"@,
            SqlType::Text => "text"@,
            SqlType::Oid => "oid"@,
            SqlType::Tid => "tid"@,
            SqlType::Xid => "xid"@,
            SqlType::Cid => "cid"@,
            SqlType::OidVector => "oidvector"@,
            SqlType::PgDdlCommand => "pg_ddl_command"@,
            SqlType::PgType => "pg_type"@,
            SqlType::PgAttribute => "pg_attribute"@,
            SqlType::PgProc => "pg_proc"@,
            SqlType::PgClass => "pg_class"@,
            SqlType::Json => "json"@,
            SqlType::Xml => "xml"@,
            SqlType::PgNodeTree => "pg_node_tree"@,
            SqlType::TableAmHandler => "table_am_handler"@,
            SqlType::IndexAmHandler => "index_am_handler"@,
            SqlType::Point => "point"@,
            SqlType::Lseg => "lseg"@,
            SqlType::Path => "path"@,
            SqlType::Box => "box"@,
            SqlType::Polygon => "polygon"@,
            SqlType::Line => "line"@,
            SqlType::Cidr => "cidr"@,
            SqlType::Float4 => "float4"@,
            SqlType::Float8 => "float8"@,
            SqlType::Unknown => "unknown"@,
            SqlType::Circle => "circle"@,
            SqlType::Macaddr8 => "macaddr8"@,
            SqlType::Money => "money"@,
            SqlType::Macaddr => "macaddr"@,
            SqlType::Inet => "inet"@,
            SqlType::Aclitem => "aclitem"@,
            SqlType::Bpchar => "bpchar"@,
            SqlType::Varchar => "varchar"@,
            SqlType::Date => "date"@,
            SqlType::Time => "time"@,
            SqlType::Timestamp => "timestamp"@,
            SqlType::Timestamptz => "timestamptz"@,
            SqlType::Interval => "interval"@,
            SqlType::Timetz => "timetz"@,
            SqlType::Bit => "bit"@,
            SqlType::Varbit => "varbit"@,
            SqlType::Numeric => "numeric"@,
            SqlType::Refcursor => "refcursor"@,
            SqlType::Regprocedure => "regprocedure"@,
            SqlType::Regoper => "regoper"@,
            SqlType::Regoperator => "regoperator"@,
            SqlType::Regclass => "regclass"@,
            SqlType::Regtype => "regtype"@,
            SqlType::Record => "record"@,
            SqlType::Cstring => "cstring"@,
            SqlType::Any => "any"@,
            SqlType::Anyarray => "anyarray"@,
            SqlType::Void => "void"@,
            SqlType::Trigger => "trigger"@,
            SqlType::LanguageHandler => "language_handler"@,
            SqlType::Internal => "internal"@,
            SqlType::Opaque => "opaque"@,
            SqlType::Anyelement => "anyelement"@,
            SqlType::RecordArray => "_record"@,
            SqlType::Anynonarray => "anynonarray"@,
            SqlType::Uuid => "uuid"@,
            SqlType::TxidSnapshot => "txid_snapshot"@,
            SqlType::FdwHandler => "fdw_handler"@,
            SqlType::PgLsn => "pg_lsn"@,
            SqlType::TsmHandler => "tsm_handler"@,
            SqlType::PgNdistinct => "pg_ndistinct"@,
            SqlType::PgDependencies => "pg_dependencies"@,
            SqlType::Anyenum => "anyenum"@,
            SqlType::TsVector => "tsvector"@,
            SqlType::Tsquery => "tsquery"@,
            SqlType::GtsVector => "gtsvector"@,
            SqlType::Regconfig => "regconfig"@,
            SqlType::Regdictionary => "regdictionary"@,
            SqlType::Jsonb => "jsonb"@,
            SqlType::AnyRange => "anyrange"@,
            SqlType::EventTrigger => "event_trigger"@,
            SqlType::Int4Range => "int4range"@,
            SqlType::NumRange => "numrange"@,
            SqlType::TsRange => "tsrange"@,
            SqlType::TstzRange => "tstzrange"@,
            SqlType::DateRange => "daterange"@,
            SqlType::Int8Range => "int8range"@,
            SqlType::Jsonpath => "jsonpath"@,
            SqlType::Regnamespace => "regnamespace"@,
            SqlType::Regrole => "regrole"@,
            SqlType::PgMcvList => "pg_mcv_list"@,
        }
    }

    /// The storage size of the type in bytes: `-1` for a type of variable
    /// length, `-2` for a null-terminated string.
    pub open spec fn spec_len(self) -> int {
        match self {
            SqlType::Bool => 1,
            SqlType::Bytea => -1,
            SqlType::Char => 1,
            SqlType::Name => 0,
            SqlType::Int8 => 8,
            SqlType::Int2 => 2,
            SqlType::Int2Vector => -1,
            SqlType::Int4 => 4,
            SqlType::Regproc => 4,
            SqlType::Text => -1,
            SqlType::Oid => 4,
            SqlType::Tid => 6,
            SqlType::Xid => 4,
            SqlType::Cid => 4,
            SqlType::OidVector => -1,
            SqlType::PgDdlCommand => 0,
            SqlType::PgType => -1,
            SqlType::PgAttribute => -1,
            SqlType::PgProc => -1,
            SqlType::PgClass => -1,
            SqlType::Json => -1,
            SqlType::Xml => -1,
            SqlType::PgNodeTree => -1,
            SqlType::TableAmHandler => 4,
            SqlType::IndexAmHandler => 4,
            SqlType::Point => 16,
            SqlType::Lseg => 32,
            SqlType::Path => -1,
            SqlType::Box => 32,
            SqlType::Polygon => -1,
            SqlType::Line => 24,
            SqlType::Cidr => -1,
            SqlType::Float4 => 4,
            SqlType::Float8 => 8,
            SqlType::Unknown => -2,
            SqlType::Circle => 24,
            SqlType::Macaddr8 => 8,
            SqlType::Money => 8,
            SqlType::Macaddr => 6,
            SqlType::Inet => -1,
            SqlType::Aclitem => 12,
            SqlType::Bpchar => -1,
            SqlType::Varchar => -1,
            SqlType::Date => 4,
            SqlType::Time => 8,
            SqlType::Timestamp => 8,
            SqlType::Timestamptz => 8,
            SqlType::Interval => 16,
            SqlType::Timetz => 12,
            SqlType::Bit => -1,
            SqlType::Varbit => -1,
            SqlType::Numeric => -1,
            SqlType::Refcursor => -1,
            SqlType::Regprocedure => 4,
            SqlType::Regoper => 4,
            SqlType::Regoperator => 4,
            SqlType::Regclass => 4,
            SqlType::Regtype => 4,
            SqlType::Record => -1,
            SqlType::Cstring => -2,
            SqlType::Any => 4,
            SqlType::Anyarray => -1,
            SqlType::Void => 4,
            SqlType::Trigger => 4,
            SqlType::LanguageHandler => 4,
            SqlType::Internal => 0,
            SqlType::Opaque => 4,
            SqlType::Anyelement => 4,
            SqlType::RecordArray => -1,
            SqlType::Anynonarray => 4,
            SqlType::Uuid => 16,
            SqlType::TxidSnapshot => -1,
            SqlType::FdwHandler => 4,
            SqlType::PgLsn => 8,
            SqlType::TsmHandler => 4,
            SqlType::PgNdistinct => -1,
            SqlType::PgDependencies => -1,
            SqlType::Anyenum => 4,
            SqlType::TsVector => -1,
            SqlType::Tsquery => -1,
            SqlType::GtsVector => -1,
            SqlType::Regconfig => 4,
            SqlType::Regdictionary => 4,
            SqlType::Jsonb => -1,
            SqlType::AnyRange => -1,
            SqlType::EventTrigger => 4,
            SqlType::Int4Range => -1,
            SqlType::NumRange => -1,
            SqlType::TsRange => -1,
            SqlType::TstzRange => -1,
            SqlType::DateRange => -1,
            SqlType::Int8Range => -1,
            SqlType::Jsonpath => -1,
            SqlType::Regnamespace => 4,
            SqlType::Regrole => 4,
            SqlType::PgMcvList => -1,
        }
    }

    /// The type that has the given object identifier.
    pub open spec fn spec_from_oid(oid: int) -> Option<SqlType> {
        if oid == 16 {
            Some(SqlType::Bool)
        } else if oid == 17 {
            Some(SqlType::Bytea)
        } else if oid == 18 {
            Some(SqlType::Char)
        } else if oid == 19 {
            Some(SqlType::Name)
        } else if oid == 20 {
            Some(SqlType::Int8)
        } else if oid == 21 {
            Some(SqlType::Int2)
        } else if oid == 22 {
            Some(SqlType::Int2Vector)
        } else if oid == 23 {
            Some(SqlType::Int4)
        } else if oid == 24 {
            Some(SqlType::Regproc)
        } else if oid == 25 {
            Some(SqlType::Text)
        } else if oid == 26 {
            Some(SqlType::Oid)
        } else if oid == 27 {
            Some(SqlType::Tid)
        } else if oid == 28 {
            Some(SqlType::Xid)
        } else if oid == 29 {
            Some(SqlType::Cid)
        } else if oid == 30 {
            Some(SqlType::OidVector)
        } else if oid == 32 {
            Some(SqlType::PgDdlCommand)
        } else if oid == 71 {
            Some(SqlType::PgType)
        } else if oid == 75 {
            Some(SqlType::PgAttribute)
        } else if oid == 81 {
            Some(SqlType::PgProc)
        } else if oid == 83 {
            Some(SqlType::PgClass)
        } else if oid == 114 {
            Some(SqlType::Json)
        } else if oid == 142 {
            Some(SqlType::Xml)
        } else if oid == 194 {
            Some(SqlType::PgNodeTree)
        } else if oid == 269 {
            Some(SqlType::TableAmHandler)
        } else if oid == 325 {
            Some(SqlType::IndexAmHandler)
        } else if oid == 600 {
            Some(SqlType::Point)
        } else if oid == 601 {
            Some(SqlType::Lseg)
        } else if oid == 602 {
            Some(SqlType::Path)
        } else if oid == 603 {
            Some(SqlType::Box)
        } else if oid == 604 {
            Some(SqlType::Polygon)
        } else if oid == 628 {
            Some(SqlType::Line)
        } else if oid == 650 {
            Some(SqlType::Cidr)
        } else if oid == 700 {
            Some(SqlType::Float4)
        } else if oid == 701 {
            Some(SqlType::Float8)
        } else if oid == 705 {
            Some(SqlType::Unknown)
        } else if oid == 718 {
            Some(SqlType::Circle)
        } else if oid == 774 {
            Some(SqlType::Macaddr8)
        } else if oid == 790 {
            Some(SqlType::Money)
        } else if oid == 829 {
            Some(SqlType::Macaddr)
        } else if oid == 869 {
            Some(SqlType::Inet)
        } else if oid == 1033 {
            Some(SqlType::Aclitem)
        } else if oid == 1042 {
            Some(SqlType::Bpchar)
        } else if oid == 1043 {
            Some(SqlType::Varchar)
        } else if oid == 1082 {
            Some(SqlType::Date)
        } else if oid == 1083 {
            Some(SqlType::Time)
        } else if oid == 1114 {
            Some(SqlType::Timestamp)
        } else if oid == 1184 {
            Some(SqlType::Timestamptz)
        } else if oid == 1186 {
            Some(SqlType::Interval)
        } else if oid == 1266 {
            Some(SqlType::Timetz)
        } else if oid == 1560 {
            Some(SqlType::Bit)
        } else if oid == 1562 {
            Some(SqlType::Varbit)
        } else if oid == 1700 {
            Some(SqlType::Numeric)
        } else if oid == 1790 {
            Some(SqlType::Refcursor)
        } else if oid == 2202 {
            Some(SqlType::Regprocedure)
        } else if oid == 2203 {
            Some(SqlType::Regoper)
        } else if oid == 2204 {
            Some(SqlType::Regoperator)
        } else if oid == 2205 {
            Some(SqlType::Regclass)
        } else if oid == 2206 {
            Some(SqlType::Regtype)
        } else if oid == 2249 {
            Some(SqlType::Record)
        } else if oid == 2275 {
            Some(SqlType::Cstring)
        } else if oid == 2276 {
            Some(SqlType::Any)
        } else if oid == 2277 {
            Some(SqlType::Anyarray)
        } else if oid == 2278 {
            Some(SqlType::Void)
        } else if oid == 2279 {
            Some(SqlType::Trigger)
        } else if oid == 2280 {
            Some(SqlType::LanguageHandler)
        } else if oid == 2281 {
            Some(SqlType::Internal)
        } else if oid == 2282 {
            Some(SqlType::Opaque)
        } else if oid == 2283 {
            Some(SqlType::Anyelement)
        } else if oid == 2287 {
            Some(SqlType::RecordArray)
        } else if oid == 2776 {
            Some(SqlType::Anynonarray)
        } else if oid == 2950 {
            Some(SqlType::Uuid)
        } else if oid == 2970 {
            Some(SqlType::TxidSnapshot)
        } else if oid == 3115 {
            Some(SqlType::FdwHandler)
        } else if oid == 3220 {
            Some(SqlType::PgLsn)
        } else if oid == 3310 {
            Some(SqlType::TsmHandler)
        } else if oid == 3361 {
            Some(SqlType::PgNdistinct)
        } else if oid == 3402 {
            Some(SqlType::PgDependencies)
        } else if oid == 3500 {
            Some(SqlType::Anyenum)
        } else if oid == 3614 {
            Some(SqlType::TsVector)
        } else if oid == 3615 {
            Some(SqlType::Tsquery)
        } else if oid == 3642 {
            Some(SqlType::GtsVector)
        } else if oid == 3734 {
            Some(SqlType::Regconfig)
        } else if oid == 3769 {
            Some(SqlType::Regdictionary)
        } else if oid == 3802 {
            Some(SqlType::Jsonb)
        } else if oid == 3831 {
            Some(SqlType::AnyRange)
        } else if oid == 3838 {
            Some(SqlType::EventTrigger)
        } else if oid == 3904 {
            Some(SqlType::Int4Range)
        } else if oid == 3906 {
            Some(SqlType::NumRange)
        } else if oid == 3908 {
            Some(SqlType::TsRange)
        } else if oid == 3910 {
            Some(SqlType::TstzRange)
        } else if oid == 3912 {
            Some(SqlType::DateRange)
        } else if oid == 3926 {
            Some(SqlType::Int8Range)
        } else if oid == 4072 {
            Some(SqlType::Jsonpath)
        } else if oid == 4089 {
            Some(SqlType::Regnamespace)
        } else if oid == 4096 {
            Some(SqlType::Regrole)
        } else if oid == 5017 {
            Some(SqlType::PgMcvList)
        } else {
            None
        }
    }

    /// The type that has the given name.
    pub open spec fn spec_from_name(name: Seq<char>) -> Option<SqlType> {
        if name == "bool"@ {
            Some(SqlType::Bool)
        } else if name == "bytea"@ {
            Some(SqlType::Bytea)
        } else if name == "char"@ {
            Some(SqlType::Char)
        } else if name == "name"@ {
            Some(SqlType::Name)
        } else if name == "int8"@ {
            Some(SqlType::Int8)
        } else if name == "int2"@ {
            Some(SqlType::Int2)
        } else if name == "int2vector"@ {
            Some(SqlType::Int2Vector)
        } else if name == "int4"@ {
            Some(SqlType::Int4)
        } else if name == "regproc"@ {
            Some(SqlType::Regproc)
        } else if name == "text"@ {
            Some(SqlType::Text)
        } else if name == "oid"@ {
            Some(SqlType::Oid)
        } else if name == "tid"@ {
            Some(SqlType::Tid)
        } else if name == "xid"@ {
            Some(SqlType::Xid)
        } else if name == "cid"@ {
            Some(SqlType::Cid)
        } else if name == "oidvector"@ {
            Some(SqlType::OidVector)
        } else if name == "pg_ddl_command"@ {
            Some(SqlType::PgDdlCommand)
        } else if name == "pg_type"@ {
            Some(SqlType::PgType)
        } else if name == "pg_attribute"@ {
            Some(SqlType::PgAttribute)
        } else if name == "pg_proc"@ {
            Some(SqlType::PgProc)
        } else if name == "pg_class"@ {
            Some(SqlType::PgClass)
        } else if name == "json"@ {
            Some(SqlType::Json)
        } else if name == "xml"@ {
            Some(SqlType::Xml)
        } else if name == "pg_node_tree"@ {
            Some(SqlType::PgNodeTree)
        } else if name == "table_am_handler"@ {
            Some(SqlType::TableAmHandler)
        } else if name == "index_am_handler"@ {
            Some(SqlType::IndexAmHandler)
        } else if name == "point"@ {
            Some(SqlType::Point)
        } else if name == "lseg"@ {
            Some(SqlType::Lseg)
        } else if name == "path"@ {
            Some(SqlType::Path)
        } else if name == "box"@ {
            Some(SqlType::Box)
        } else if name == "polygon"@ {
            Some(SqlType::Polygon)
        } else if name == "line"@ {
            Some(SqlType::Line)
        } else if name == "cidr"@ {
            Some(SqlType::Cidr)
        } else if name == "float4"@ {
            Some(SqlType::Float4)
        } else if name == "float8"@ {
            Some(SqlType::Float8)
        } else if name == "unknown"@ {
            Some(SqlType::Unknown)
        } else if name == "circle"@ {
            Some(SqlType::Circle)
        } else if name == "macaddr8"@ {
            Some(SqlType::Macaddr8)
        } else if name == "money"@ {
            Some(SqlType::Money)
        } else if name == "macaddr"@ {
            Some(SqlType::Macaddr)
        } else if name == "inet"@ {
            Some(SqlType::Inet)
        } else if name == "aclitem"@ {
            Some(SqlType::Aclitem)
        } else if name == "bpchar"@ {
            Some(SqlType::Bpchar)
        } else if name == "varchar"@ {
            Some(SqlType::Varchar)
        } else if name == "date"@ {
            Some(SqlType::Date)
        } else if name == "time"@ {
            Some(SqlType::Time)
        } else if name == "timestamp"@ {
            Some(SqlType::Timestamp)
        } else if name == "timestamptz"@ {
            Some(SqlType::Timestamptz)
        } else if name == "interval"@ {
            Some(SqlType::Interval)
        } else if name == "timetz"@ {
            Some(SqlType::Timetz)
        } else if name == "bit"@ {
            Some(SqlType::Bit)
        } else if name == "varbit"@ {
            Some(SqlType::Varbit)
        } else if name == "numeric"@ {
            Some(SqlType::Numeric)
        } else if name == "refcursor"@ {
            Some(SqlType::Refcursor)
        } else if name == "regprocedure"@ {
            Some(SqlType::Regprocedure)
        } else if name == "regoper"@ {
            Some(SqlType::Regoper)
        } else if name == "regoperator"@ {
            Some(SqlType::Regoperator)
        } else if name == "regclass"@ {
            Some(SqlType::Regclass)
        } else if name == "regtype"@ {
            Some(SqlType::Regtype)
        } else if name == "record"@ {
            Some(SqlType::Record)
        } else if name == "cstring"@ {
            Some(SqlType::Cstring)
        } else if name == "any"@ {
            Some(SqlType::Any)
        } else if name == "anyarray"@ {
            Some(SqlType::Anyarray)
        } else if name == "void"@ {
            Some(SqlType::Void)
        } else if name == "trigger"@ {
            Some(SqlType::Trigger)
        } else if name == "language_handler"@ {
            Some(SqlType::LanguageHandler)
        } else if name == "internal"@ {
            Some(SqlType::Internal)
        } else if name == "opaque"@ {
            Some(SqlType::Opaque)
        } else if name == "anyelement"@ {
            Some(SqlType::Anyelement)
        } else if name == "_record"@ {
            Some(SqlType::RecordArray)
        } else if name == "anynonarray"@ {
            Some(SqlType::Anynonarray)
        } else if name == "uuid"@ {
            Some(SqlType::Uuid)
        } else if name == "txid_snapshot"@ {
            Some(SqlType::TxidSnapshot)
        } else if name == "fdw_handler"@ {
            Some(SqlType::FdwHandler)
        } else if name == "pg_lsn"@ {
            Some(SqlType::PgLsn)
        } else if name == "tsm_handler"@ {
            Some(SqlType::TsmHandler)
        } else if name == "pg_ndistinct"@ {
            Some(SqlType::PgNdistinct)
        } else if name == "pg_dependencies"@ {
            Some(SqlType::PgDependencies)
        } else if name == "anyenum"@ {
            Some(SqlType::Anyenum)
        } else if name == "tsvector"@ {
            Some(SqlType::TsVector)
        } else if name == "tsquery"@ {
            Some(SqlType::Tsquery)
        } else if name == "gtsvector"@ {
            Some(SqlType::GtsVector)
        } else if name == "regconfig"@ {
            Some(SqlType::Regconfig)
        } else if name == "regdictionary"@ {
            Some(SqlType::Regdictionary)
        } else if name == "jsonb"@ {
            Some(SqlType::Jsonb)
        } else if name == "anyrange"@ {
            Some(SqlType::AnyRange)
        } else if name == "event_trigger"@ {
            Some(SqlType::EventTrigger)
        } else if name == "int4range"@ {
            Some(SqlType::Int4Range)
        } else if name == "numrange"@ {
            Some(SqlType::NumRange)
        } else if name == "tsrange"@ {
            Some(SqlType::TsRange)
        } else if name == "tstzrange"@ {
            Some(SqlType::TstzRange)
        } else if name == "daterange"@ {
            Some(SqlType::DateRange)
        } else if name == "int8range"@ {
            Some(SqlType::Int8Range)
        } else if name == "jsonpath"@ {
            Some(SqlType::Jsonpath)
        } else if name == "regnamespace"@ {
            Some(SqlType::Regnamespace)
        } else if name == "regrole"@ {
            Some(SqlType::Regrole)
        } else if name == "pg_mcv_list"@ {
            Some(SqlType::PgMcvList)
        } else {
            None
        }
    }

    /// The type with the given object identifier, if there is one.
    pub fn from_oid(oid: i32) -> (found: Option<SqlType>)
        ensures
            found == Self::spec_from_oid(oid as int),
    {
        match oid {
            16 => Some(SqlType::Bool),
            17 => Some(SqlType::Bytea),
            18 => Some(SqlType::Char),
            19 => Some(SqlType::Name),
            20 => Some(SqlType::Int8),
            21 => Some(SqlType::Int2),
            22 => Some(SqlType::Int2Vector),
            23 => Some(SqlType::Int4),
            24 => Some(SqlType::Regproc),
            25 => Some(SqlType::Text),
            26 => Some(SqlType::Oid),
            27 => Some(SqlType::Tid),
            28 => Some(SqlType::Xid),
            29 => Some(SqlType::Cid),
            30 => Some(SqlType::OidVector),
            32 => Some(SqlType::PgDdlCommand),
            71 => Some(SqlType::PgType),
            75 => Some(SqlType::PgAttribute),
            81 => Some(SqlType::PgProc),
            83 => Some(SqlType::PgClass),
            114 => Some(SqlType::Json),
            142 => Some(SqlType::Xml),
            194 => Some(SqlType::PgNodeTree),
            269 => Some(SqlType::TableAmHandler),
            325 => Some(SqlType::IndexAmHandler),
            600 => Some(SqlType::Point),
            601 => Some(SqlType::Lseg),
            602 => Some(SqlType::Path),
            603 => Some(SqlType::Box),
            604 => Some(SqlType::Polygon),
            628 => Some(SqlType::Line),
            650 => Some(SqlType::Cidr),
            700 => Some(SqlType::Float4),
            701 => Some(SqlType::Float8),
            705 => Some(SqlType::Unknown),
            718 => Some(SqlType::Circle),
            774 => Some(SqlType::Macaddr8),
            790 => Some(SqlType::Money),
            829 => Some(SqlType::Macaddr),
            869 => Some(SqlType::Inet),
            1033 => Some(SqlType::Aclitem),
            1042 => Some(SqlType::Bpchar),
            1043 => Some(SqlType::Varchar),
            1082 => Some(SqlType::Date),
            1083 => Some(SqlType::Time),
            1114 => Some(SqlType::Timestamp),
            1184 => Some(SqlType::Timestamptz),
            1186 => Some(SqlType::Interval),
            1266 => Some(SqlType::Timetz),
            1560 => Some(SqlType::Bit),
            1562 => Some(SqlType::Varbit),
            1700 => Some(SqlType::Numeric),
            1790 => Some(SqlType::Refcursor),
            2202 => Some(SqlType::Regprocedure),
            2203 => Some(SqlType::Regoper),
            2204 => Some(SqlType::Regoperator),
            2205 => Some(SqlType::Regclass),
            2206 => Some(SqlType::Regtype),
            2249 => Some(SqlType::Record),
            2275 => Some(SqlType::Cstring),
            2276 => Some(SqlType::Any),
            2277 => Some(SqlType::Anyarray),
            2278 => Some(SqlType::Void),
            2279 => Some(SqlType::Trigger),
            2280 => Some(SqlType::LanguageHandler),
            2281 => Some(SqlType::Internal),
            2282 => Some(SqlType::Opaque),
            2283 => Some(SqlType::Anyelement),
            2287 => Some(SqlType::RecordArray),
            2776 => Some(SqlType::Anynonarray),
            2950 => Some(SqlType::Uuid),
            2970 => Some(SqlType::TxidSnapshot),
            3115 => Some(SqlType::FdwHandler),
            3220 => Some(SqlType::PgLsn),
            3310 => Some(SqlType::TsmHandler),
            3361 => Some(SqlType::PgNdistinct),
            3402 => Some(SqlType::PgDependencies),
            3500 => Some(SqlType::Anyenum),
            3614 => Some(SqlType::TsVector),
            3615 => Some(SqlType::Tsquery),
            3642 => Some(SqlType::GtsVector),
            3734 => Some(SqlType::Regconfig),
            3769 => Some(SqlType::Regdictionary),
            3802 => Some(SqlType::Jsonb),
            3831 => Some(SqlType::AnyRange),
            3838 => Some(SqlType::EventTrigger),
            3904 => Some(SqlType::Int4Range),
            3906 => Some(SqlType::NumRange),
            3908 => Some(SqlType::TsRange),
            3910 => Some(SqlType::TstzRange),
            3912 => Some(SqlType::DateRange),
            3926 => Some(SqlType::Int8Range),
            4072 => Some(SqlType::Jsonpath),
            4089 => Some(SqlType::Regnamespace),
            4096 => Some(SqlType::Regrole),
            5017 => Some(SqlType::PgMcvList),
            _ => None,
        }
    }

    pub fn oid(&self) -> (oid: i32)
        ensures
            oid == self.spec_oid(),
    {
        match *self {
            SqlType::Bool => 16,
            SqlType::Bytea => 17,
            SqlType::Char => 18,
            SqlType::Name => 19,
            SqlType::Int8 => 20,
            SqlType::Int2 => 21,
            SqlType::Int2Vector => 22,
            SqlType::Int4 => 23,
            SqlType::Regproc => 24,
            SqlType::Text => 25,
            SqlType::Oid => 26,
            SqlType::Tid => 27,
            SqlType::Xid => 28,
            SqlType::Cid => 29,
            SqlType::OidVector => 30,
            SqlType::PgDdlCommand => 32,
            SqlType::PgType => 71,
            SqlType::PgAttribute => 75,
            SqlType::PgProc => 81,
            SqlType::PgClass => 83,
            SqlType::Json => 114,
            SqlType::Xml => 142,
            SqlType::PgNodeTree => 194,
            SqlType::TableAmHandler => 269,
            SqlType::IndexAmHandler => 325,
            SqlType::Point => 600,
            SqlType::Lseg => 601,
            SqlType::Path => 602,
            SqlType::Box => 603,
            SqlType::Polygon => 604,
            SqlType::Line => 628,
            SqlType::Cidr => 650,
            SqlType::Float4 => 700,
            SqlType::Float8 => 701,
            SqlType::Unknown => 705,
            SqlType::Circle => 718,
            SqlType::Macaddr8 => 774,
            SqlType::Money => 790,
            SqlType::Macaddr => 829,
            SqlType::Inet => 869,
            SqlType::Aclitem => 1033,
            SqlType::Bpchar => 1042,
            SqlType::Varchar => 1043,
            SqlType::Date => 1082,
            SqlType::Time => 1083,
            SqlType::Timestamp => 1114,
            SqlType::Timestamptz => 1184,
            SqlType::Interval => 1186,
            SqlType::Timetz => 1266,
            SqlType::Bit => 1560,
            SqlType::Varbit => 1562,
            SqlType::Numeric => 1700,
            SqlType::Refcursor => 1790,
            SqlType::Regprocedure => 2202,
            SqlType::Regoper => 2203,
            SqlType::Regoperator => 2204,
            SqlType::Regclass => 2205,
            SqlType::Regtype => 2206,
            SqlType::Record => 2249,
            SqlType::Cstring => 2275,
            SqlType::Any => 2276,
            SqlType::Anyarray => 2277,
            SqlType::Void => 2278,
            SqlType::Trigger => 2279,
            SqlType::LanguageHandler => 2280,
            SqlType::Internal => 2281,
            SqlType::Opaque => 2282,
            SqlType::Anyelement => 2283,
            SqlType::RecordArray => 2287,
            SqlType::Anynonarray => 2776,
            SqlType::Uuid => 2950,
            SqlType::TxidSnapshot => 2970,
            SqlType::FdwHandler => 3115,
            SqlType::PgLsn => 3220,
            SqlType::TsmHandler => 3310,
            SqlType::PgNdistinct => 3361,
            SqlType::PgDependencies => 3402,
            SqlType::Anyenum => 3500,
            SqlType::TsVector => 3614,
            SqlType::Tsquery => 3615,
            SqlType::GtsVector => 3642,
            SqlType::Regconfig => 3734,
            SqlType::Regdictionary => 3769,
            SqlType::Jsonb => 3802,
            SqlType::AnyRange => 3831,
            SqlType::EventTrigger => 3838,
            SqlType::Int4Range => 3904,
            SqlType::NumRange => 3906,
            SqlType::TsRange => 3908,
            SqlType::TstzRange => 3910,
            SqlType::DateRange => 3912,
            SqlType::Int8Range => 3926,
            SqlType::Jsonpath => 4072,
            SqlType::Regnamespace => 4089,
            SqlType::Regrole => 4096,
            SqlType::PgMcvList => 5017,
        }
    }

    /// The type with the given name, if there is one. Names are matched
    /// exactly: in lower case, as `name` returns them.
    pub fn from_str(s: &str) -> (found: Option<SqlType>)
        ensures
            found == Self::spec_from_name(s@),
    {
        if str_eq(s, "bool") {
            Some(SqlType::Bool)
        } else if str_eq(s, "bytea") {
            Some(SqlType::Bytea)
        } else if str_eq(s, "char") {
            Some(SqlType::Char)
        } else if str_eq(s, "name") {
            Some(SqlType::Name)
        } else if str_eq(s, "int8") {
            Some(SqlType::Int8)
        } else if str_eq(s, "int2") {
            Some(SqlType::Int2)
        } else if str_eq(s, "int2vector") {
            Some(SqlType::Int2Vector)
        } else if str_eq(s, "int4") {
            Some(SqlType::Int4)
        } else if str_eq(s, "regproc") {
            Some(SqlType::Regproc)
        } else if str_eq(s, "text") {
            Some(SqlType::Text)
        } else if str_eq(s, "oid") {
            Some(SqlType::Oid)
        } else if str_eq(s, "tid") {
            Some(SqlType::Tid)
        } else if str_eq(s, "xid") {
            Some(SqlType::Xid)
        } else if str_eq(s, "cid") {
            Some(SqlType::Cid)
        } else if str_eq(s, "oidvector") {
            Some(SqlType::OidVector)
        } else if str_eq(s, "pg_ddl_command") {
            Some(SqlType::PgDdlCommand)
        } else if str_eq(s, "pg_type") {
            Some(SqlType::PgType)
        } else if str_eq(s, "pg_attribute") {
            Some(SqlType::PgAttribute)
        } else if str_eq(s, "pg_proc") {
            Some(SqlType::PgProc)
        } else if str_eq(s, "pg_class") {
            Some(SqlType::PgClass)
        } else if str_eq(s, "json") {
            Some(SqlType::Json)
        } else if str_eq(s, "xml") {
            Some(SqlType::Xml)
        } else if str_eq(s, "pg_node_tree") {
            Some(SqlType::PgNodeTree)
        } else if str_eq(s, "table_am_handler") {
            Some(SqlType::TableAmHandler)
        } else if str_eq(s, "index_am_handler") {
            Some(SqlType::IndexAmHandler)
        } else if str_eq(s, "point") {
            Some(SqlType::Point)
        } else if str_eq(s, "lseg") {
            Some(SqlType::Lseg)
        } else if str_eq(s, "path") {
            Some(SqlType::Path)
        } else if str_eq(s, "box") {
            Some(SqlType::Box)
        } else if str_eq(s, "polygon") {
            Some(SqlType::Polygon)
        } else if str_eq(s, "line") {
            Some(SqlType::Line)
        } else if str_eq(s, "cidr") {
            Some(SqlType::Cidr)
        } else if str_eq(s, "float4") {
            Some(SqlType::Float4)
        } else if str_eq(s, "float8") {
            Some(SqlType::Float8)
        } else if str_eq(s, "unknown") {
            Some(SqlType::Unknown)
        } else if str_eq(s, "circle") {
            Some(SqlType::Circle)
        } else if str_eq(s, "macaddr8") {
            Some(SqlType::Macaddr8)
        } else if str_eq(s, "money") {
            Some(SqlType::Money)
        } else if str_eq(s, "macaddr") {
            Some(SqlType::Macaddr)
        } else if str_eq(s, "inet") {
            Some(SqlType::Inet)
        } else if str_eq(s, "aclitem") {
            Some(SqlType::Aclitem)
        } else if str_eq(s, "bpchar") {
            Some(SqlType::Bpchar)
        } else if str_eq(s, "varchar") {
            Some(SqlType::Varchar)
        } else if str_eq(s, "date") {
            Some(SqlType::Date)
        } else if str_eq(s, "time") {
            Some(SqlType::Time)
        } else if str_eq(s, "timestamp") {
            Some(SqlType::Timestamp)
        } else if str_eq(s, "timestamptz") {
            Some(SqlType::Timestamptz)
        } else if str_eq(s, "interval") {
            Some(SqlType::Interval)
        } else if str_eq(s, "timetz") {
            Some(SqlType::Timetz)
        } else if str_eq(s, "bit") {
            Some(SqlType::Bit)
        } else if str_eq(s, "varbit") {
            Some(SqlType::Varbit)
        } else if str_eq(s, "numeric") {
            Some(SqlType::Numeric)
        } else if str_eq(s, "refcursor") {
            Some(SqlType::Refcursor)
        } else if str_eq(s, "regprocedure") {
            Some(SqlType::Regprocedure)
        } else if str_eq(s, "regoper") {
            Some(SqlType::Regoper)
        } else if str_eq(s, "regoperator") {
            Some(SqlType::Regoperator)
        } else if str_eq(s, "regclass") {
            Some(SqlType::Regclass)
        } else if str_eq(s, "regtype") {
            Some(SqlType::Regtype)
        } else if str_eq(s, "record") {
            Some(SqlType::Record)
        } else if str_eq(s, "cstring") {
            Some(SqlType::Cstring)
        } else if str_eq(s, "any") {
            Some(SqlType::Any)
        } else if str_eq(s, "anyarray") {
            Some(SqlType::Anyarray)
        } else if str_eq(s, "void") {
            Some(SqlType::Void)
        } else if str_eq(s, "trigger") {
            Some(SqlType::Trigger)
        } else if str_eq(s, "language_handler") {
            Some(SqlType::LanguageHandler)
        } else if str_eq(s, "internal") {
            Some(SqlType::Internal)
        } else if str_eq(s, "opaque") {
            Some(SqlType::Opaque)
        } else if str_eq(s, "anyelement") {
            Some(SqlType::Anyelement)
        } else if str_eq(s, "_record") {
            Some(SqlType::RecordArray)
        } else if str_eq(s, "anynonarray") {
            Some(SqlType::Anynonarray)
        } else if str_eq(s, "uuid") {
            Some(SqlType::Uuid)
        } else if str_eq(s, "txid_snapshot") {
            Some(SqlType::TxidSnapshot)
        } else if str_eq(s, "fdw_handler") {
            Some(SqlType::FdwHandler)
        } else if str_eq(s, "pg_lsn") {
            Some(SqlType::PgLsn)
        } else if str_eq(s, "tsm_handler") {
            Some(SqlType::TsmHandler)
        } else if str_eq(s, "pg_ndistinct") {
            Some(SqlType::PgNdistinct)
        } else if str_eq(s, "pg_dependencies") {
            Some(SqlType::PgDependencies)
        } else if str_eq(s, "anyenum") {
            Some(SqlType::Anyenum)
        } else if str_eq(s, "tsvector") {
            Some(SqlType::TsVector)
        } else if str_eq(s, "tsquery") {
            Some(SqlType::Tsquery)
        } else if str_eq(s, "gtsvector") {
            Some(SqlType::GtsVector)
        } else if str_eq(s, "regconfig") {
            Some(SqlType::Regconfig)
        } else if str_eq(s, "regdictionary") {
            Some(SqlType::Regdictionary)
        } else if str_eq(s, "jsonb") {
            Some(SqlType::Jsonb)
        } else if str_eq(s, "anyrange") {
            Some(SqlType::AnyRange)
        } else if str_eq(s, "event_trigger") {
            Some(SqlType::EventTrigger)
        } else if str_eq(s, "int4range") {
            Some(SqlType::Int4Range)
        } else if str_eq(s, "numrange") {
            Some(SqlType::NumRange)
        } else if str_eq(s, "tsrange") {
            Some(SqlType::TsRange)
        } else if str_eq(s, "tstzrange") {
            Some(SqlType::TstzRange)
        } else if str_eq(s, "daterange") {
            Some(SqlType::DateRange)
        } else if str_eq(s, "int8range") {
            Some(SqlType::Int8Range)
        } else if str_eq(s, "jsonpath") {
            Some(SqlType::Jsonpath)
        } else if str_eq(s, "regnamespace") {
            Some(SqlType::Regnamespace)
        } else if str_eq(s, "regrole") {
            Some(SqlType::Regrole)
        } else if str_eq(s, "pg_mcv_list") {
            Some(SqlType::PgMcvList)
        } else {
            None
        }
    }

    pub fn name(&self) -> (name: &str)
        ensures
            name@ == self.spec_name(),
    {
        match *self {
            SqlType::Bool => "bool",
            SqlType::Bytea => "bytea",
            SqlType::Char => "char",
            SqlType::Name => "name",
            SqlType::Int8 => "int8",
            SqlType::Int2 => "int2",
            SqlType::Int2Vector => "int2vector",
            SqlType::Int4 => "int4",
            SqlType::Regproc => "regproc",
            SqlType::Text => "text",
            SqlType::Oid => "oid",
            SqlType::Tid => "tid",
            SqlType::Xid => "xid",
            SqlType::Cid => "cid",
            SqlType::OidVector => "oidvector",
            SqlType::PgDdlCommand => "pg_ddl_command",
            SqlType::PgType => "pg_type",
            SqlType::PgAttribute => "pg_attribute",
            SqlType::PgProc => "pg_proc",
            SqlType::PgClass => "pg_class",
            SqlType::Json => "json",
            SqlType::Xml => "xml",
            SqlType::PgNodeTree => "pg_node_tree",
            SqlType::TableAmHandler => "table_am_handler",
            SqlType::IndexAmHandler => "index_am_handler",
            SqlType::Point => "point",
            SqlType::Lseg => "lseg",
            SqlType::Path => "path",
            SqlType::Box => "box",
            SqlType::Polygon => "polygon",
            SqlType::Line => "line",
            SqlType::Cidr => "cidr",
            SqlType::Float4 => "float4",
            SqlType::Float8 => "float8",
            SqlType::Unknown => "unknown",
            SqlType::Circle => "circle",
            SqlType::Macaddr8 => "macaddr8",
            SqlType::Money => "money",
            SqlType::Macaddr => "macaddr",
            SqlType::Inet => "inet",
            SqlType::Aclitem => "aclitem",
            SqlType::Bpchar => "bpchar",
            SqlType::Varchar => "varchar",
            SqlType::Date => "date",
            SqlType::Time => "time",
            SqlType::Timestamp => "timestamp",
            SqlType::Timestamptz => "timestamptz",
            SqlType::Interval => "interval",
            SqlType::Timetz => "timetz",
            SqlType::Bit => "bit",
            SqlType::Varbit => "varbit",
            SqlType::Numeric => "numeric",
            SqlType::Refcursor => "refcursor",
            SqlType::Regprocedure => "regprocedure",
            SqlType::Regoper => "regoper",
            SqlType::Regoperator => "regoperator",
            SqlType::Regclass => "regclass",
            SqlType::Regtype => "regtype",
            SqlType::Record => "record",
            SqlType::Cstring => "cstring",
            SqlType::Any => "any",
            SqlType::Anyarray => "anyarray",
            SqlType::Void => "void",
            SqlType::Trigger => "trigger",
            SqlType::LanguageHandler => "language_handler",
            SqlType::Internal => "internal",
            SqlType::Opaque => "opaque",
            SqlType::Anyelement => "anyelement",
            SqlType::RecordArray => "_record",
            SqlType::Anynonarray => "anynonarray",
            SqlType::Uuid => "uuid",
            SqlType::TxidSnapshot => "txid_snapshot",
            SqlType::FdwHandler => "fdw_handler",
            SqlType::PgLsn => "pg_lsn",
            SqlType::TsmHandler => "tsm_handler",
            SqlType::PgNdistinct => "pg_ndistinct",
            SqlType::PgDependencies => "pg_dependencies",
            SqlType::Anyenum => "anyenum",
            SqlType::TsVector => "tsvector",
            SqlType::Tsquery => "tsquery",
            SqlType::GtsVector => "gtsvector",
            SqlType::Regconfig => "regconfig",
            SqlType::Regdictionary => "regdictionary",
            SqlType::Jsonb => "jsonb",
            SqlType::AnyRange => "anyrange",
            SqlType::EventTrigger => "event_trigger",
            SqlType::Int4Range => "int4range",
            SqlType::NumRange => "numrange",
            SqlType::TsRange => "tsrange",
            SqlType::TstzRange => "tstzrange",
            SqlType::DateRange => "daterange",
            SqlType::Int8Range => "int8range",
            SqlType::Jsonpath => "jsonpath",
            SqlType::Regnamespace => "regnamespace",
            SqlType::Regrole => "regrole",
            SqlType::PgMcvList => "pg_mcv_list",
        }
    }

    pub fn len(&self) -> (len: i16)
        ensures
            len == self.spec_len(),
    {
        match *self {
            SqlType::Bool => 1,
            SqlType::Bytea => -1,
            SqlType::Char => 1,
            SqlType::Name => 0,
            SqlType::Int8 => 8,
            SqlType::Int2 => 2,
            SqlType::Int2Vector => -1,
            SqlType::Int4 => 4,
            SqlType::Regproc => 4,
            SqlType::Text => -1,
            SqlType::Oid => 4,
            SqlType::Tid => 6,
            SqlType::Xid => 4,
            SqlType::Cid => 4,
            SqlType::OidVector => -1,
            SqlType::PgDdlCommand => 0,
            SqlType::PgType => -1,
            SqlType::PgAttribute => -1,
            SqlType::PgProc => -1,
            SqlType::PgClass => -1,
            SqlType::Json => -1,
            SqlType::Xml => -1,
            SqlType::PgNodeTree => -1,
            SqlType::TableAmHandler => 4,
            SqlType::IndexAmHandler => 4,
            SqlType::Point => 16,
            SqlType::Lseg => 32,
            SqlType::Path => -1,
            SqlType::Box => 32,
            SqlType::Polygon => -1,
            SqlType::Line => 24,
            SqlType::Cidr => -1,
            SqlType::Float4 => 4,
            SqlType::Float8 => 8,
            SqlType::Unknown => -2,
            SqlType::Circle => 24,
            SqlType::Macaddr8 => 8,
            SqlType::Money => 8,
            SqlType::Macaddr => 6,
            SqlType::Inet => -1,
            SqlType::Aclitem => 12,
            SqlType::Bpchar => -1,
            SqlType::Varchar => -1,
            SqlType::Date => 4,
            SqlType::Time => 8,
            SqlType::Timestamp => 8,
            SqlType::Timestamptz => 8,
            SqlType::Interval => 16,
            SqlType::Timetz => 12,
            SqlType::Bit => -1,
            SqlType::Varbit => -1,
            SqlType::Numeric => -1,
            SqlType::Refcursor => -1,
            SqlType::Regprocedure => 4,
            SqlType::Regoper => 4,
            SqlType::Regoperator => 4,
            SqlType::Regclass => 4,
            SqlType::Regtype => 4,
            SqlType::Record => -1,
            SqlType::Cstring => -2,
            SqlType::Any => 4,
            SqlType::Anyarray => -1,
            SqlType::Void => 4,
            SqlType::Trigger => 4,
            SqlType::LanguageHandler => 4,
            SqlType::Internal => 0,
            SqlType::Opaque => 4,
            SqlType::Anyelement => 4,
            SqlType::RecordArray => -1,
            SqlType::Anynonarray => 4,
            SqlType::Uuid => 16,
            SqlType::TxidSnapshot => -1,
            SqlType::FdwHandler => 4,
            SqlType::PgLsn => 8,
            SqlType::TsmHandler => 4,
            SqlType::PgNdistinct => -1,
            SqlType::PgDependencies => -1,
            SqlType::Anyenum => 4,
            SqlType::TsVector => -1,
            SqlType::Tsquery => -1,
            SqlType::GtsVector => -1,
            SqlType::Regconfig => 4,
            SqlType::Regdictionary => 4,
            SqlType::Jsonb => -1,
            SqlType::AnyRange => -1,
            SqlType::EventTrigger => 4,
            SqlType::Int4Range => -1,
            SqlType::NumRange => -1,
            SqlType::TsRange => -1,
            SqlType::TstzRange => -1,
            SqlType::DateRange => -1,
            SqlType::Int8Range => -1,
            SqlType::Jsonpath => -1,
            SqlType::Regnamespace => 4,
            SqlType::Regrole => 4,
            SqlType::PgMcvList => -1,
        }
    }

    /// Looking up the object identifier of a type gives that type back.
    pub proof fn lemma_from_oid_of_oid(sql_type: SqlType)
        ensures
            Self::spec_from_oid(sql_type.spec_oid()) == Some(sql_type),
    {
    }

    /// A type found by an object identifier has that identifier.
    pub proof fn lemma_oid_of_from_oid(oid: int, sql_type: SqlType)
        requires
            Self::spec_from_oid(oid) == Some(sql_type),
        ensures
            sql_type.spec_oid() == oid,
    {
    }

    /// Looking up the name of a type gives that type back.
    pub proof fn lemma_from_name_of_name(sql_type: SqlType)
        ensures
            Self::spec_from_name(sql_type.spec_name()) == Some(sql_type),
    {
        // Each name is spelled out, so that any two of them are seen to
        // differ in length or at some character.
        reveal_strlit("bool");
        assert("bool"@.len() == 4 && "bool"@[0] == 'b' && "bool"@[1] == 'o' && "bool"@[2] == 'o' && "bool"@[3] == 'l');
        reveal_strlit("bytea");
        assert("bytea"@.len() == 5 && "bytea"@[0] == 'b' && "bytea"@[1] == 'y' && "bytea"@[2] == 't' && "bytea"@[3] == 'e' && "bytea"@[4] == 'a');
        reveal_strlit("char");
        assert("char"@.len() == 4 && "char"@[0] == 'c' && "char"@[1] == 'h' && "char"@[2] == 'a' && "char"@[3] == 'r');
        reveal_strlit("name");
        assert("name"@.len() == 4 && "name"@[0] == 'n' && "name"@[1] == 'a' && "name"@[2] == 'm' && "name"@[3] == 'e');
        reveal_strlit("int8");
        assert("int8"@.len() == 4 && "int8"@[0] == 'i' && "int8"@[1] == 'n' && "int8"@[2] == 't' && "int8"@[3] == '8');
        reveal_strlit("int2");
        assert("int2"@.len() == 4 && "int2"@[0] == 'i' && "int2"@[1] == 'n' && "int2"@[2] == 't' && "int2"@[3] == '2');
        reveal_strlit("int2vector");
        assert("int2vector"@.len() == 10 && "int2vector"@[0] == 'i' && "int2vector"@[1] == 'n' && "int2vector"@[2] == 't' && "int2vector"@[3] == '2' && "int2vector"@[4] == 'v' && "int2vector"@[5] == 'e' && "int2vector"@[6] == 'c' && "int2vector"@[7] == 't' && "int2vector"@[8] == 'o' && "int2vector"@[9] == 'r');
        reveal_strlit("int4");
        assert("int4"@.len() == 4 && "int4"@[0] == 'i' && "int4"@[1] == 'n' && "int4"@[2] == 't' && "int4"@[3] == '4');
        reveal_strlit("regproc");
        assert("regproc"@.len() == 7 && "regproc"@[0] == 'r' && "regproc"@[1] == 'e' && "regproc"@[2] == 'g' && "regproc"@[3] == 'p' && "regproc"@[4] == 'r' && "regproc"@[5] == 'o' && "regproc"@[6] == 'c');
        reveal_strlit("text");
        assert("text"@.len() == 4 && "text"@[0] == 't' && "text"@[1] == 'e' && "text"@[2] == 'x' && "text"@[3] == 't');
        reveal_strlit("oid");
        assert("oid"@.len() == 3 && "oid"@[0] == 'o' && "oid"@[1] == 'i' && "oid"@[2] == 'd');
        reveal_strlit("tid");
        assert("tid"@.len() == 3 && "tid"@[0] == 't' && "tid"@[1] == 'i' && "tid"@[2] == 'd');
        reveal_strlit("xid");
        assert("xid"@.len() == 3 && "xid"@[0] == 'x' && "xid"@[1] == 'i' && "xid"@[2] == 'd');
        reveal_strlit("cid");
        assert("cid"@.len() == 3 && "cid"@[0] == 'c' && "cid"@[1] == 'i' && "cid"@[2] == 'd');
        reveal_strlit("oidvector");
        assert("oidvector"@.len() == 9 && "oidvector"@[0] == 'o' && "oidvector"@[1] == 'i' && "oidvector"@[2] == 'd' && "oidvector"@[3] == 'v' && "oidvector"@[4] == 'e' && "oidvector"@[5] == 'c' && "oidvector"@[6] == 't' && "oidvector"@[7] == 'o' && "oidvector"@[8] == 'r');
        reveal_strlit("pg_ddl_command");
        assert("pg_ddl_command"@.len() == 14 && "pg_ddl_command"@[0] == 'p' && "pg_ddl_command"@[1] == 'g' && "pg_ddl_command"@[2] == '_' && "pg_ddl_command"@[3] == 'd' && "pg_ddl_command"@[4] == 'd' && "pg_ddl_command"@[5] == 'l' && "pg_ddl_command"@[6] == '_' && "pg_ddl_command"@[7] == 'c' && "pg_ddl_command"@[8] == 'o' && "pg_ddl_command"@[9] == 'm' && "pg_ddl_command"@[10] == 'm' && "pg_ddl_command"@[11] == 'a' && "pg_ddl_command"@[12] == 'n' && "pg_ddl_command"@[13] == 'd');
        reveal_strlit("pg_type");
        assert("pg_type"@.len() == 7 && "pg_type"@[0] == 'p' && "pg_type"@[1] == 'g' && "pg_type"@[2] == '_' && "pg_type"@[3] == 't' && "pg_type"@[4] == 'y' && "pg_type"@[5] == 'p' && "pg_type"@[6] == 'e');
        reveal_strlit("pg_attribute");
        assert("pg_attribute"@.len() == 12 && "pg_attribute"@[0] == 'p' && "pg_attribute"@[1] == 'g' && "pg_attribute"@[2] == '_' && "pg_attribute"@[3] == 'a' && "pg_attribute"@[4] == 't' && "pg_attribute"@[5] == 't' && "pg_attribute"@[6] == 'r' && "pg_attribute"@[7] == 'i' && "pg_attribute"@[8] == 'b' && "pg_attribute"@[9] == 'u' && "pg_attribute"@[10] == 't' && "pg_attribute"@[11] == 'e');
        reveal_strlit("pg_proc");
        assert("pg_proc"@.len() == 7 && "pg_proc"@[0] == 'p' && "pg_proc"@[1] == 'g' && "pg_proc"@[2] == '_' && "pg_proc"@[3] == 'p' && "pg_proc"@[4] == 'r' && "pg_proc"@[5] == 'o' && "pg_proc"@[6] == 'c');
        reveal_strlit("pg_class");
        assert("pg_class"@.len() == 8 && "pg_class"@[0] == 'p' && "pg_class"@[1] == 'g' && "pg_class"@[2] == '_' && "pg_class"@[3] == 'c' && "pg_class"@[4] == 'l' && "pg_class"@[5] == 'a' && "pg_class"@[6] == 's' && "pg_class"@[7] == 's');
        reveal_strlit("json");
        assert("json"@.len() == 4 && "json"@[0] == 'j' && "json"@[1] == 's' && "json"@[2] == 'o' && "json"@[3] == 'n');
        reveal_strlit("xml");
        assert("xml"@.len() == 3 && "xml"@[0] == 'x' && "xml"@[1] == 'm' && "xml"@[2] == 'l');
        reveal_strlit("pg_node_tree");
        assert("pg_node_tree"@.len() == 12 && "pg_node_tree"@[0] == 'p' && "pg_node_tree"@[1] == 'g' && "pg_node_tree"@[2] == '_' && "pg_node_tree"@[3] == 'n' && "pg_node_tree"@[4] == 'o' && "pg_node_tree"@[5] == 'd' && "pg_node_tree"@[6] == 'e' && "pg_node_tree"@[7] == '_' && "pg_node_tree"@[8] == 't' && "pg_node_tree"@[9] == 'r' && "pg_node_tree"@[10] == 'e' && "pg_node_tree"@[11] == 'e');
        reveal_strlit("table_am_handler");
        assert("table_am_handler"@.len() == 16 && "table_am_handler"@[0] == 't' && "table_am_handler"@[1] == 'a' && "table_am_handler"@[2] == 'b' && "table_am_handler"@[3] == 'l' && "table_am_handler"@[4] == 'e' && "table_am_handler"@[5] == '_' && "table_am_handler"@[6] == 'a' && "table_am_handler"@[7] == 'm' && "table_am_handler"@[8] == '_' && "table_am_handler"@[9] == 'h' && "table_am_handler"@[10] == 'a' && "table_am_handler"@[11] == 'n' && "table_am_handler"@[12] == 'd' && "table_am_handler"@[13] == 'l' && "table_am_handler"@[14] == 'e' && "table_am_handler"@[15] == 'r');
        reveal_strlit("index_am_handler");
        assert("index_am_handler"@.len() == 16 && "index_am_handler"@[0] == 'i' && "index_am_handler"@[1] == 'n' && "index_am_handler"@[2] == 'd' && "index_am_handler"@[3] == 'e' && "index_am_handler"@[4] == 'x' && "index_am_handler"@[5] == '_' && "index_am_handler"@[6] == 'a' && "index_am_handler"@[7] == 'm' && "index_am_handler"@[8] == '_' && "index_am_handler"@[9] == 'h' && "index_am_handler"@[10] == 'a' && "index_am_handler"@[11] == 'n' && "index_am_handler"@[12] == 'd' && "index_am_handler"@[13] == 'l' && "index_am_handler"@[14] == 'e' && "index_am_handler"@[15] == 'r');
        reveal_strlit("point");
        assert("point"@.len() == 5 && "point"@[0] == 'p' && "point"@[1] == 'o' && "point"@[2] == 'i' && "point"@[3] == 'n' && "point"@[4] == 't');
        reveal_strlit("lseg");
        assert("lseg"@.len() == 4 && "lseg"@[0] == 'l' && "lseg"@[1] == 's' && "lseg"@[2] == 'e' && "lseg"@[3] == 'g');
        reveal_strlit("path");
        assert("path"@.len() == 4 && "path"@[0] == 'p' && "path"@[1] == 'a' && "path"@[2] == 't' && "path"@[3] == 'h');
        reveal_strlit("box");
        assert("box"@.len() == 3 && "box"@[0] == 'b' && "box"@[1] == 'o' && "box"@[2] == 'x');
        reveal_strlit("polygon");
        assert("polygon"@.len() == 7 && "polygon"@[0] == 'p' && "polygon"@[1] == 'o' && "polygon"@[2] == 'l' && "polygon"@[3] == 'y' && "polygon"@[4] == 'g' && "polygon"@[5] == 'o' && "polygon"@[6] == 'n');
        reveal_strlit("line");
        assert("line"@.len() == 4 && "line"@[0] == 'l' && "line"@[1] == 'i' && "line"@[2] == 'n' && "line"@[3] == 'e');
        reveal_strlit("cidr");
        assert("cidr"@.len() == 4 && "cidr"@[0] == 'c' && "cidr"@[1] == 'i' && "cidr"@[2] == 'd' && "cidr"@[3] == 'r');
        reveal_strlit("float4");
        assert("float4"@.len() == 6 && "float4"@[0] == 'f' && "float4"@[1] == 'l' && "float4"@[2] == 'o' && "float4"@[3] == 'a' && "float4"@[4] == 't' && "float4"@[5] == '4');
        reveal_strlit("float8");
        assert("float8"@.len() == 6 && "float8"@[0] == 'f' && "float8"@[1] == 'l' && "float8"@[2] == 'o' && "float8"@[3] == 'a' && "float8"@[4] == 't' && "float8"@[5] == '8');
        reveal_strlit("unknown");
        assert("unknown"@.len() == 7 && "unknown"@[0] == 'u' && "unknown"@[1] == 'n' && "unknown"@[2] == 'k' && "unknown"@[3] == 'n' && "unknown"@[4] == 'o' && "unknown"@[5] == 'w' && "unknown"@[6] == 'n');
        reveal_strlit("circle");
        assert("circle"@.len() == 6 && "circle"@[0] == 'c' && "circle"@[1] == 'i' && "circle"@[2] == 'r' && "circle"@[3] == 'c' && "circle"@[4] == 'l' && "circle"@[5] == 'e');
        reveal_strlit("macaddr8");
        assert("macaddr8"@.len() == 8 && "macaddr8"@[0] == 'm' && "macaddr8"@[1] == 'a' && "macaddr8"@[2] == 'c' && "macaddr8"@[3] == 'a' && "macaddr8"@[4] == 'd' && "macaddr8"@[5] == 'd' && "macaddr8"@[6] == 'r' && "macaddr8"@[7] == '8');
        reveal_strlit("money");
        assert("money"@.len() == 5 && "money"@[0] == 'm' && "money"@[1] == 'o' && "money"@[2] == 'n' && "money"@[3] == 'e' && "money"@[4] == 'y');
        reveal_strlit("macaddr");
        assert("macaddr"@.len() == 7 && "macaddr"@[0] == 'm' && "macaddr"@[1] == 'a' && "macaddr"@[2] == 'c' && "macaddr"@[3] == 'a' && "macaddr"@[4] == 'd' && "macaddr"@[5] == 'd' && "macaddr"@[6] == 'r');
        reveal_strlit("inet");
        assert("inet"@.len() == 4 && "inet"@[0] == 'i' && "inet"@[1] == 'n' && "inet"@[2] == 'e' && "inet"@[3] == 't');
        reveal_strlit("aclitem");
        assert("aclitem"@.len() == 7 && "aclitem"@[0] == 'a' && "aclitem"@[1] == 'c' && "aclitem"@[2] == 'l' && "aclitem"@[3] == 'i' && "aclitem"@[4] == 't' && "aclitem"@[5] == 'e' && "aclitem"@[6] == 'm');
        reveal_strlit("bpchar");
        assert("bpchar"@.len() == 6 && "bpchar"@[0] == 'b' && "bpchar"@[1] == 'p' && "bpchar"@[2] == 'c' && "bpchar"@[3] == 'h' && "bpchar"@[4] == 'a' && "bpchar"@[5] == 'r');
        reveal_strlit("varchar");
        assert("varchar"@.len() == 7 && "varchar"@[0] == 'v' && "varchar"@[1] == 'a' && "varchar"@[2] == 'r' && "varchar"@[3] == 'c' && "varchar"@[4] == 'h' && "varchar"@[5] == 'a' && "varchar"@[6] == 'r');
        reveal_strlit("date");
        assert("date"@.len() == 4 && "date"@[0] == 'd' && "date"@[1] == 'a' && "date"@[2] == 't' && "date"@[3] == 'e');
        reveal_strlit("time");
        assert("time"@.len() == 4 && "time"@[0] == 't' && "time"@[1] == 'i' && "time"@[2] == 'm' && "time"@[3] == 'e');
        reveal_strlit("timestamp");
        assert("timestamp"@.len() == 9 && "timestamp"@[0] == 't' && "timestamp"@[1] == 'i' && "timestamp"@[2] == 'm' && "timestamp"@[3] == 'e' && "timestamp"@[4] == 's' && "timestamp"@[5] == 't' && "timestamp"@[6] == 'a' && "timestamp"@[7] == 'm' && "timestamp"@[8] == 'p');
        reveal_strlit("timestamptz");
        assert("timestamptz"@.len() == 11 && "timestamptz"@[0] == 't' && "timestamptz"@[1] == 'i' && "timestamptz"@[2] == 'm' && "timestamptz"@[3] == 'e' && "timestamptz"@[4] == 's' && "timestamptz"@[5] == 't' && "timestamptz"@[6] == 'a' && "timestamptz"@[7] == 'm' && "timestamptz"@[8] == 'p' && "timestamptz"@[9] == 't' && "timestamptz"@[10] == 'z');
        reveal_strlit("interval");
        assert("interval"@.len() == 8 && "interval"@[0] == 'i' && "interval"@[1] == 'n' && "interval"@[2] == 't' && "interval"@[3] == 'e' && "interval"@[4] == 'r' && "interval"@[5] == 'v' && "interval"@[6] == 'a' && "interval"@[7] == 'l');
        reveal_strlit("timetz");
        assert("timetz"@.len() == 6 && "timetz"@[0] == 't' && "timetz"@[1] == 'i' && "timetz"@[2] == 'm' && "timetz"@[3] == 'e' && "timetz"@[4] == 't' && "timetz"@[5] == 'z');
        reveal_strlit("bit");
        assert("bit"@.len() == 3 && "bit"@[0] == 'b' && "bit"@[1] == 'i' && "bit"@[2] == 't');
        reveal_strlit("varbit");
        assert("varbit"@.len() == 6 && "varbit"@[0] == 'v' && "varbit"@[1] == 'a' && "varbit"@[2] == 'r' && "varbit"@[3] == 'b' && "varbit"@[4] == 'i' && "varbit"@[5] == 't');
        reveal_strlit("numeric");
        assert("numeric"@.len() == 7 && "numeric"@[0] == 'n' && "numeric"@[1] == 'u' && "numeric"@[2] == 'm' && "numeric"@[3] == 'e' && "numeric"@[4] == 'r' && "numeric"@[5] == 'i' && "numeric"@[6] == 'c');
        reveal_strlit("refcursor");
        assert("refcursor"@.len() == 9 && "refcursor"@[0] == 'r' && "refcursor"@[1] == 'e' && "refcursor"@[2] == 'f' && "refcursor"@[3] == 'c' && "refcursor"@[4] == 'u' && "refcursor"@[5] == 'r' && "refcursor"@[6] == 's' && "refcursor"@[7] == 'o' && "refcursor"@[8] == 'r');
        reveal_strlit("regprocedure");
        assert("regprocedure"@.len() == 12 && "regprocedure"@[0] == 'r' && "regprocedure"@[1] == 'e' && "regprocedure"@[2] == 'g' && "regprocedure"@[3] == 'p' && "regprocedure"@[4] == 'r' && "regprocedure"@[5] == 'o' && "regprocedure"@[6] == 'c' && "regprocedure"@[7] == 'e' && "regprocedure"@[8] == 'd' && "regprocedure"@[9] == 'u' && "regprocedure"@[10] == 'r' && "regprocedure"@[11] == 'e');
        reveal_strlit("regoper");
        assert("regoper"@.len() == 7 && "regoper"@[0] == 'r' && "regoper"@[1] == 'e' && "regoper"@[2] == 'g' && "regoper"@[3] == 'o' && "regoper"@[4] == 'p' && "regoper"@[5] == 'e' && "regoper"@[6] == 'r');
        reveal_strlit("regoperator");
        assert("regoperator"@.len() == 11 && "regoperator"@[0] == 'r' && "regoperator"@[1] == 'e' && "regoperator"@[2] == 'g' && "regoperator"@[3] == 'o' && "regoperator"@[4] == 'p' && "regoperator"@[5] == 'e' && "regoperator"@[6] == 'r' && "regoperator"@[7] == 'a' && "regoperator"@[8] == 't' && "regoperator"@[9] == 'o' && "regoperator"@[10] == 'r');
        reveal_strlit("regclass");
        assert("regclass"@.len() == 8 && "regclass"@[0] == 'r' && "regclass"@[1] == 'e' && "regclass"@[2] == 'g' && "regclass"@[3] == 'c' && "regclass"@[4] == 'l' && "regclass"@[5] == 'a' && "regclass"@[6] == 's' && "regclass"@[7] == 's');
        reveal_strlit("regtype");
        assert("regtype"@.len() == 7 && "regtype"@[0] == 'r' && "regtype"@[1] == 'e' && "regtype"@[2] == 'g' && "regtype"@[3] == 't' && "regtype"@[4] == 'y' && "regtype"@[5] == 'p' && "regtype"@[6] == 'e');
        reveal_strlit("record");
        assert("record"@.len() == 6 && "record"@[0] == 'r' && "record"@[1] == 'e' && "record"@[2] == 'c' && "record"@[3] == 'o' && "record"@[4] == 'r' && "record"@[5] == 'd');
        reveal_strlit("cstring");
        assert("cstring"@.len() == 7 && "cstring"@[0] == 'c' && "cstring"@[1] == 's' && "cstring"@[2] == 't' && "cstring"@[3] == 'r' && "cstring"@[4] == 'i' && "cstring"@[5] == 'n' && "cstring"@[6] == 'g');
        reveal_strlit("any");
        assert("any"@.len() == 3 && "any"@[0] == 'a' && "any"@[1] == 'n' && "any"@[2] == 'y');
        reveal_strlit("anyarray");
        assert("anyarray"@.len() == 8 && "anyarray"@[0] == 'a' && "anyarray"@[1] == 'n' && "anyarray"@[2] == 'y' && "anyarray"@[3] == 'a' && "anyarray"@[4] == 'r' && "anyarray"@[5] == 'r' && "anyarray"@[6] == 'a' && "anyarray"@[7] == 'y');
        reveal_strlit("void");
        assert("void"@.len() == 4 && "void"@[0] == 'v' && "void"@[1] == 'o' && "void"@[2] == 'i' && "void"@[3] == 'd');
        reveal_strlit("trigger");
        assert("trigger"@.len() == 7 && "trigger"@[0] == 't' && "trigger"@[1] == 'r' && "trigger"@[2] == 'i' && "trigger"@[3] == 'g' && "trigger"@[4] == 'g' && "trigger"@[5] == 'e' && "trigger"@[6] == 'r');
        reveal_strlit("language_handler");
        assert("language_handler"@.len() == 16 && "language_handler"@[0] == 'l' && "language_handler"@[1] == 'a' && "language_handler"@[2] == 'n' && "language_handler"@[3] == 'g' && "language_handler"@[4] == 'u' && "language_handler"@[5] == 'a' && "language_handler"@[6] == 'g' && "language_handler"@[7] == 'e' && "language_handler"@[8] == '_' && "language_handler"@[9] == 'h' && "language_handler"@[10] == 'a' && "language_handler"@[11] == 'n' && "language_handler"@[12] == 'd' && "language_handler"@[13] == 'l' && "language_handler"@[14] == 'e' && "language_handler"@[15] == 'r');
        reveal_strlit("internal");
        assert("internal"@.len() == 8 && "internal"@[0] == 'i' && "internal"@[1] == 'n' && "internal"@[2] == 't' && "internal"@[3] == 'e' && "internal"@[4] == 'r' && "internal"@[5] == 'n' && "internal"@[6] == 'a' && "internal"@[7] == 'l');
        reveal_strlit("opaque");
        assert("opaque"@.len() == 6 && "opaque"@[0] == 'o' && "opaque"@[1] == 'p' && "opaque"@[2] == 'a' && "opaque"@[3] == 'q' && "opaque"@[4] == 'u' && "opaque"@[5] == 'e');
        reveal_strlit("anyelement");
        assert("anyelement"@.len() == 10 && "anyelement"@[0] == 'a' && "anyelement"@[1] == 'n' && "anyelement"@[2] == 'y' && "anyelement"@[3] == 'e' && "anyelement"@[4] == 'l' && "anyelement"@[5] == 'e' && "anyelement"@[6] == 'm' && "anyelement"@[7] == 'e' && "anyelement"@[8] == 'n' && "anyelement"@[9] == 't');
        reveal_strlit("_record");
        assert("_record"@.len() == 7 && "_record"@[0] == '_' && "_record"@[1] == 'r' && "_record"@[2] == 'e' && "_record"@[3] == 'c' && "_record"@[4] == 'o' && "_record"@[5] == 'r' && "_record"@[6] == 'd');
        reveal_strlit("anynonarray");
        assert("anynonarray"@.len() == 11 && "anynonarray"@[0] == 'a' && "anynonarray"@[1] == 'n' && "anynonarray"@[2] == 'y' && "anynonarray"@[3] == 'n' && "anynonarray"@[4] == 'o' && "anynonarray"@[5] == 'n' && "anynonarray"@[6] == 'a' && "anynonarray"@[7] == 'r' && "anynonarray"@[8] == 'r' && "anynonarray"@[9] == 'a' && "anynonarray"@[10] == 'y');
        reveal_strlit("uuid");
        assert("uuid"@.len() == 4 && "uuid"@[0] == 'u' && "uuid"@[1] == 'u' && "uuid"@[2] == 'i' && "uuid"@[3] == 'd');
        reveal_strlit("txid_snapshot");
        assert("txid_snapshot"@.len() == 13 && "txid_snapshot"@[0] == 't' && "txid_snapshot"@[1] == 'x' && "txid_snapshot"@[2] == 'i' && "txid_snapshot"@[3] == 'd' && "txid_snapshot"@[4] == '_' && "txid_snapshot"@[5] == 's' && "txid_snapshot"@[6] == 'n' && "txid_snapshot"@[7] == 'a' && "txid_snapshot"@[8] == 'p' && "txid_snapshot"@[9] == 's' && "txid_snapshot"@[10] == 'h' && "txid_snapshot"@[11] == 'o' && "txid_snapshot"@[12] == 't');
        reveal_strlit("fdw_handler");
        assert("fdw_handler"@.len() == 11 && "fdw_handler"@[0] == 'f' && "fdw_handler"@[1] == 'd' && "fdw_handler"@[2] == 'w' && "fdw_handler"@[3] == '_' && "fdw_handler"@[4] == 'h' && "fdw_handler"@[5] == 'a' && "fdw_handler"@[6] == 'n' && "fdw_handler"@[7] == 'd' && "fdw_handler"@[8] == 'l' && "fdw_handler"@[9] == 'e' && "fdw_handler"@[10] == 'r');
        reveal_strlit("pg_lsn");
        assert("pg_lsn"@.len() == 6 && "pg_lsn"@[0] == 'p' && "pg_lsn"@[1] == 'g' && "pg_lsn"@[2] == '_' && "pg_lsn"@[3] == 'l' && "pg_lsn"@[4] == 's' && "pg_lsn"@[5] == 'n');
        reveal_strlit("tsm_handler");
        assert("tsm_handler"@.len() == 11 && "tsm_handler"@[0] == 't' && "tsm_handler"@[1] == 's' && "tsm_handler"@[2] == 'm' && "tsm_handler"@[3] == '_' && "tsm_handler"@[4] == 'h' && "tsm_handler"@[5] == 'a' && "tsm_handler"@[6] == 'n' && "tsm_handler"@[7] == 'd' && "tsm_handler"@[8] == 'l' && "tsm_handler"@[9] == 'e' && "tsm_handler"@[10] == 'r');
        reveal_strlit("pg_ndistinct");
        assert("pg_ndistinct"@.len() == 12 && "pg_ndistinct"@[0] == 'p' && "pg_ndistinct"@[1] == 'g' && "pg_ndistinct"@[2] == '_' && "pg_ndistinct"@[3] == 'n' && "pg_ndistinct"@[4] == 'd' && "pg_ndistinct"@[5] == 'i' && "pg_ndistinct"@[6] == 's' && "pg_ndistinct"@[7] == 't' && "pg_ndistinct"@[8] == 'i' && "pg_ndistinct"@[9] == 'n' && "pg_ndistinct"@[10] == 'c' && "pg_ndistinct"@[11] == 't');
        reveal_strlit("pg_dependencies");
        assert("pg_dependencies"@.len() == 15 && "pg_dependencies"@[0] == 'p' && "pg_dependencies"@[1] == 'g' && "pg_dependencies"@[2] == '_' && "pg_dependencies"@[3] == 'd' && "pg_dependencies"@[4] == 'e' && "pg_dependencies"@[5] == 'p' && "pg_dependencies"@[6] == 'e' && "pg_dependencies"@[7] == 'n' && "pg_dependencies"@[8] == 'd' && "pg_dependencies"@[9] == 'e' && "pg_dependencies"@[10] == 'n' && "pg_dependencies"@[11] == 'c' && "pg_dependencies"@[12] == 'i' && "pg_dependencies"@[13] == 'e' && "pg_dependencies"@[14] == 's');
        reveal_strlit("anyenum");
        assert("anyenum"@.len() == 7 && "anyenum"@[0] == 'a' && "anyenum"@[1] == 'n' && "anyenum"@[2] == 'y' && "anyenum"@[3] == 'e' && "anyenum"@[4] == 'n' && "anyenum"@[5] == 'u' && "anyenum"@[6] == 'm');
        reveal_strlit("tsvector");
        assert("tsvector"@.len() == 8 && "tsvector"@[0] == 't' && "tsvector"@[1] == 's' && "tsvector"@[2] == 'v' && "tsvector"@[3] == 'e' && "tsvector"@[4] == 'c' && "tsvector"@[5] == 't' && "tsvector"@[6] == 'o' && "tsvector"@[7] == 'r');
        reveal_strlit("tsquery");
        assert("tsquery"@.len() == 7 && "tsquery"@[0] == 't' && "tsquery"@[1] == 's' && "tsquery"@[2] == 'q' && "tsquery"@[3] == 'u' && "tsquery"@[4] == 'e' && "tsquery"@[5] == 'r' && "tsquery"@[6] == 'y');
        reveal_strlit("gtsvector");
        assert("gtsvector"@.len() == 9 && "gtsvector"@[0] == 'g' && "gtsvector"@[1] == 't' && "gtsvector"@[2] == 's' && "gtsvector"@[3] == 'v' && "gtsvector"@[4] == 'e' && "gtsvector"@[5] == 'c' && "gtsvector"@[6] == 't' && "gtsvector"@[7] == 'o' && "gtsvector"@[8] == 'r');
        reveal_strlit("regconfig");
        assert("regconfig"@.len() == 9 && "regconfig"@[0] == 'r' && "regconfig"@[1] == 'e' && "regconfig"@[2] == 'g' && "regconfig"@[3] == 'c' && "regconfig"@[4] == 'o' && "regconfig"@[5] == 'n' && "regconfig"@[6] == 'f' && "regconfig"@[7] == 'i' && "regconfig"@[8] == 'g');
        reveal_strlit("regdictionary");
        assert("regdictionary"@.len() == 13 && "regdictionary"@[0] == 'r' && "regdictionary"@[1] == 'e' && "regdictionary"@[2] == 'g' && "regdictionary"@[3] == 'd' && "regdictionary"@[4] == 'i' && "regdictionary"@[5] == 'c' && "regdictionary"@[6] == 't' && "regdictionary"@[7] == 'i' && "regdictionary"@[8] == 'o' && "regdictionary"@[9] == 'n' && "regdictionary"@[10] == 'a' && "regdictionary"@[11] == 'r' && "regdictionary"@[12] == 'y');
        reveal_strlit("jsonb");
        assert("jsonb"@.len() == 5 && "jsonb"@[0] == 'j' && "jsonb"@[1] == 's' && "jsonb"@[2] == 'o' && "jsonb"@[3] == 'n' && "jsonb"@[4] == 'b');
        reveal_strlit("anyrange");
        assert("anyrange"@.len() == 8 && "anyrange"@[0] == 'a' && "anyrange"@[1] == 'n' && "anyrange"@[2] == 'y' && "anyrange"@[3] == 'r' && "anyrange"@[4] == 'a' && "anyrange"@[5] == 'n' && "anyrange"@[6] == 'g' && "anyrange"@[7] == 'e');
        reveal_strlit("event_trigger");
        assert("event_trigger"@.len() == 13 && "event_trigger"@[0] == 'e' && "event_trigger"@[1] == 'v' && "event_trigger"@[2] == 'e' && "event_trigger"@[3] == 'n' && "event_trigger"@[4] == 't' && "event_trigger"@[5] == '_' && "event_trigger"@[6] == 't' && "event_trigger"@[7] == 'r' && "event_trigger"@[8] == 'i' && "event_trigger"@[9] == 'g' && "event_trigger"@[10] == 'g' && "event_trigger"@[11] == 'e' && "event_trigger"@[12] == 'r');
        reveal_strlit("int4range");
        assert("int4range"@.len() == 9 && "int4range"@[0] == 'i' && "int4range"@[1] == 'n' && "int4range"@[2] == 't' && "int4range"@[3] == '4' && "int4range"@[4] == 'r' && "int4range"@[5] == 'a' && "int4range"@[6] == 'n' && "int4range"@[7] == 'g' && "int4range"@[8] == 'e');
        reveal_strlit("numrange");
        assert("numrange"@.len() == 8 && "numrange"@[0] == 'n' && "numrange"@[1] == 'u' && "numrange"@[2] == 'm' && "numrange"@[3] == 'r' && "numrange"@[4] == 'a' && "numrange"@[5] == 'n' && "numrange"@[6] == 'g' && "numrange"@[7] == 'e');
        reveal_strlit("tsrange");
        assert("tsrange"@.len() == 7 && "tsrange"@[0] == 't' && "tsrange"@[1] == 's' && "tsrange"@[2] == 'r' && "tsrange"@[3] == 'a' && "tsrange"@[4] == 'n' && "tsrange"@[5] == 'g' && "tsrange"@[6] == 'e');
        reveal_strlit("tstzrange");
        assert("tstzrange"@.len() == 9 && "tstzrange"@[0] == 't' && "tstzrange"@[1] == 's' && "tstzrange"@[2] == 't' && "tstzrange"@[3] == 'z' && "tstzrange"@[4] == 'r' && "tstzrange"@[5] == 'a' && "tstzrange"@[6] == 'n' && "tstzrange"@[7] == 'g' && "tstzrange"@[8] == 'e');
        reveal_strlit("daterange");
        assert("daterange"@.len() == 9 && "daterange"@[0] == 'd' && "daterange"@[1] == 'a' && "daterange"@[2] == 't' && "daterange"@[3] == 'e' && "daterange"@[4] == 'r' && "daterange"@[5] == 'a' && "daterange"@[6] == 'n' && "daterange"@[7] == 'g' && "daterange"@[8] == 'e');
        reveal_strlit("int8range");
        assert("int8range"@.len() == 9 && "int8range"@[0] == 'i' && "int8range"@[1] == 'n' && "int8range"@[2] == 't' && "int8range"@[3] == '8' && "int8range"@[4] == 'r' && "int8range"@[5] == 'a' && "int8range"@[6] == 'n' && "int8range"@[7] == 'g' && "int8range"@[8] == 'e');
        reveal_strlit("jsonpath");
        assert("jsonpath"@.len() == 8 && "jsonpath"@[0] == 'j' && "jsonpath"@[1] == 's' && "jsonpath"@[2] == 'o' && "jsonpath"@[3] == 'n' && "jsonpath"@[4] == 'p' && "jsonpath"@[5] == 'a' && "jsonpath"@[6] == 't' && "jsonpath"@[7] == 'h');
        reveal_strlit("regnamespace");
        assert("regnamespace"@.len() == 12 && "regnamespace"@[0] == 'r' && "regnamespace"@[1] == 'e' && "regnamespace"@[2] == 'g' && "regnamespace"@[3] == 'n' && "regnamespace"@[4] == 'a' && "regnamespace"@[5] == 'm' && "regnamespace"@[6] == 'e' && "regnamespace"@[7] == 's' && "regnamespace"@[8] == 'p' && "regnamespace"@[9] == 'a' && "regnamespace"@[10] == 'c' && "regnamespace"@[11] == 'e');
        reveal_strlit("regrole");
        assert("regrole"@.len() == 7 && "regrole"@[0] == 'r' && "regrole"@[1] == 'e' && "regrole"@[2] == 'g' && "regrole"@[3] == 'r' && "regrole"@[4] == 'o' && "regrole"@[5] == 'l' && "regrole"@[6] == 'e');
        reveal_strlit("pg_mcv_list");
        assert("pg_mcv_list"@.len() == 11 && "pg_mcv_list"@[0] == 'p' && "pg_mcv_list"@[1] == 'g' && "pg_mcv_list"@[2] == '_' && "pg_mcv_list"@[3] == 'm' && "pg_mcv_list"@[4] == 'c' && "pg_mcv_list"@[5] == 'v' && "pg_mcv_list"@[6] == '_' && "pg_mcv_list"@[7] == 'l' && "pg_mcv_list"@[8] == 'i' && "pg_mcv_list"@[9] == 's' && "pg_mcv_list"@[10] == 't');
    }

    /// A type found by a name has that name.
    pub proof fn lemma_name_of_from_name(name: Seq<char>, sql_type: SqlType)
        requires
            Self::spec_from_name(name) == Some(sql_type),
        ensures
            sql_type.spec_name() == name,
    {
    }
}

} // verus!
