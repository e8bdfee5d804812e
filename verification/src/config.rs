//! Agent configuration: metric protocol, Telegraf target and per-module
//! settings, with their defaults.

use vstd::prelude::*;
use crate::text::push_str;

verus! {

/// Wire format for metrics sent to Telegraf.
#[derive(Debug, Clone, Copy, PartialEq, Eq, Structural)]
pub enum MetricProtocol {
    /// InfluxDB line protocol (Telegraf `inputs.socket_listener` or `inputs.influxdb_listener`).
    Influx,
    /// DogStatsD-extended StatsD (Telegraf `inputs.statsd` with `datadog_extensions = true`).
    Statsd,
}

impl Default for MetricProtocol {
    fn default() -> (r: Self)
        ensures
            r == MetricProtocol::Influx,
    {
        MetricProtocol::Influx
    }
}

#[derive(Debug)]
pub struct TelegrafConfig {
    pub address: String,
    pub protocol: MetricProtocol,
}

impl Default for TelegrafConfig {
    fn default() -> (r: Self)
        ensures
            r.address@ == "127.0.0.1:8125"@,
            r.protocol == MetricProtocol::Influx,
    {
        let mut address = String::new();
        push_str(&mut address, "127.0.0.1:8125");
        TelegrafConfig { address, protocol: MetricProtocol::Influx }
    }
}

#[derive(Debug)]
pub struct DnsConfig {
    pub enabled: bool,
}

impl Default for DnsConfig {
    fn default() -> (r: Self)
        ensures
            r.enabled,
    {
        DnsConfig { enabled: true }
    }
}

#[derive(Debug)]
pub struct TcpConfig {
    pub enabled: bool,
    /// Ports to filter on. Omit or set to [] to capture all ports.
    pub ports: Option<Vec<u16>>,
}

impl Default for TcpConfig {
    fn default() -> (r: Self)
        ensures
            r.enabled,
            r.ports is None,
    {
        TcpConfig { enabled: true, ports: None }
    }
}

#[derive(Debug)]
pub struct MysqlConfig {
    pub enabled: bool,
    pub ports: Vec<u16>,
}

impl Default for MysqlConfig {
    fn default() -> (r: Self)
        ensures
            r.enabled,
            r.ports@ == seq![3306u16],
    {
        let mut ports: Vec<u16> = Vec::new();
        ports.push(3306);
        MysqlConfig { enabled: true, ports }
    }
}

#[derive(Debug)]
pub struct HttpConfig {
    pub enabled: bool,
    pub ports: Vec<u16>,
}

impl Default for HttpConfig {
    fn default() -> (r: Self)
        ensures
            !r.enabled,
            r.ports@ == seq![80u16],
    {
        let mut ports: Vec<u16> = Vec::new();
        ports.push(80);
        HttpConfig { enabled: false, ports }
    }
}

#[derive(Debug)]
pub struct ModulesConfig {
    pub tcp: TcpConfig,
    pub mysql: MysqlConfig,
    pub http: HttpConfig,
    pub dns: DnsConfig,
}

impl Default for ModulesConfig {
    fn default() -> (r: Self)
        ensures
            r.tcp.enabled && r.tcp.ports is None,
            r.mysql.enabled && r.mysql.ports@ == seq![3306u16],
            !r.http.enabled && r.http.ports@ == seq![80u16],
            r.dns.enabled,
    {
        ModulesConfig {
            tcp: TcpConfig::default(),
            mysql: MysqlConfig::default(),
            http: HttpConfig::default(),
            dns: DnsConfig::default(),
        }
    }
}

} // verus!
