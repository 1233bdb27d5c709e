//! Messages exchanged between the metric services.
use vstd::prelude::*;

use std::sync::Arc;

use crate::mar::config::MarConfig;
use crate::metrics::metric_report::MetricReportType;
use crate::network::NetworkConfig;

verus! {

/// The reports to dump: all of them, or one.
#[derive(Clone)]
pub enum ReportsToDump {
    All,
    Report(MetricReportType),
}

/// Asks for metric reports to be written to MAR entries.
#[derive(Clone)]
pub struct DumpMetricReportMessage {
    reports_to_dump: ReportsToDump,
    network_config: Arc<NetworkConfig>,
    mar_config: Arc<MarConfig>,
}

impl DumpMetricReportMessage {
    pub fn new(
        reports_to_dump: ReportsToDump,
        network_config: Arc<NetworkConfig>,
        mar_config: Arc<MarConfig>,
    ) -> (r: Self)
        ensures
            r.spec_reports_to_dump() == reports_to_dump,
            r.spec_network_config() == *network_config,
            r.spec_mar_config() == *mar_config,
    {
        DumpMetricReportMessage { reports_to_dump, network_config, mar_config }
    }

    pub closed spec fn spec_reports_to_dump(&self) -> ReportsToDump {
        self.reports_to_dump
    }

    pub closed spec fn spec_network_config(&self) -> NetworkConfig {
        *self.network_config
    }

    pub closed spec fn spec_mar_config(&self) -> MarConfig {
        *self.mar_config
    }

    pub fn network_config(&self) -> (r: &NetworkConfig)
        ensures
            *r == self.spec_network_config(),
    {
        &*self.network_config
    }

    pub fn reports_to_dump(&self) -> (r: &ReportsToDump)
        ensures
            *r == self.spec_reports_to_dump(),
    {
        &self.reports_to_dump
    }

    pub fn mar_config(&self) -> (r: &MarConfig)
        ensures
            *r == self.spec_mar_config(),
    {
        &*self.mar_config
    }
}

/// Asks for the high resolution telemetry to be written to a MAR entry.
#[derive(Clone)]
pub struct DumpHrtMessage {
    network_config: Arc<NetworkConfig>,
    mar_config: Arc<MarConfig>,
}

impl DumpHrtMessage {
    pub fn new(network_config: Arc<NetworkConfig>, mar_config: Arc<MarConfig>) -> (r: Self)
        ensures
            r.spec_network_config() == *network_config,
            r.spec_mar_config() == *mar_config,
    {
        DumpHrtMessage { network_config, mar_config }
    }

    pub closed spec fn spec_network_config(&self) -> NetworkConfig {
        *self.network_config
    }

    pub closed spec fn spec_mar_config(&self) -> MarConfig {
        *self.mar_config
    }

    pub fn network_config(&self) -> (r: &NetworkConfig)
        ensures
            *r == self.spec_network_config(),
    {
        &*self.network_config
    }

    pub fn mar_config(&self) -> (r: &MarConfig)
        ensures
            *r == self.spec_mar_config(),
    {
        &*self.mar_config
    }
}

} // verus!
