use vstd::prelude::*;

verus! {

use crate::placement::Placement;
use crate::widget::Shape;

/// The whole configuration document: global settings and the widget list.
#[derive(Debug, Clone)]
pub struct Config {
    pub general: GeneralConfig,
    pub widgets: Vec<WidgetConfig>,
}

/// Global settings.
#[derive(Debug, Clone)]
pub struct GeneralConfig {
    pub brightness: i32,
}

/// One configured widget: its target panel, its origin on that panel, and
/// the widget-kind-specific setup.
#[derive(Debug, Clone)]
pub struct WidgetConfig {
    pub panel: usize,
    pub x: usize,
    pub y: usize,
    pub setup: WidgetSetup,
}

/// The closed set of widget kinds, each carrying that kind's parameters.
#[derive(Debug, Clone)]
pub enum WidgetSetup {
    Cpu(WidgetCpuSetup),
    Memory(WidgetMemorySetup),
    Network(WidgetNetworkSetup),
    Battery,
    Clock,
}

/// Parameters of the CPU usage widget.
#[derive(Debug, Clone)]
pub struct WidgetCpuSetup {
    pub merge_threads: bool,
}

/// Parameters of the memory usage widget.
#[derive(Debug, Clone)]
pub struct WidgetMemorySetup {
    pub swap: bool,
}

/// Parameters of the network throughput widget.
#[derive(Debug, Clone)]
pub struct WidgetNetworkSetup {
    pub devices: Vec<String>,
}

/// The placement that a configured widget of the given shape asks for.
pub fn placement_of(cfg: &WidgetConfig, shape: Shape) -> (p: Placement)
    ensures
        p == (Placement { panel: cfg.panel, x: cfg.x, y: cfg.y, shape }),
{
    Placement { panel: cfg.panel, x: cfg.x, y: cfg.y, shape }
}

} // verus!
