//! Plain data types shared with the kernel interface: integer aliases,
//! limits, and the records that system calls fill in or read.

use vstd::prelude::*;

verus! {

pub type zx_addr_t = usize;

pub type zx_duration_t = i64;

pub type zx_handle_t = u32;

pub type zx_off_t = u64;

pub type zx_rights_t = u32;

pub type zx_signals_t = u32;

pub type zx_status_t = i32;

pub type zx_time_t = i64;

pub type zx_gpaddr_t = usize;

pub type zx_koid_t = u64;

/// Longest name of a kernel object, its terminating zero byte included.
pub const ZX_MAX_NAME_LEN: usize = 32;

/// The one raw value that never names a handle.
pub const ZX_HANDLE_INVALID: zx_handle_t = 0;

pub const ZX_OK: zx_status_t = 0;

pub const ZX_ERR_INTERNAL: zx_status_t = -1;

pub const ZX_ERR_INVALID_ARGS: zx_status_t = -10;

pub const X86_MAX_INST_LEN: usize = 15;

#[derive(Debug, Copy, Clone, Eq, PartialEq, Structural)]
pub enum zx_cache_policy_t {
    ZX_CACHE_POLICY_CACHED,
    ZX_CACHE_POLICY_UNCACHED,
    ZX_CACHE_POLICY_UNCACHED_DEVICE,
    ZX_CACHE_POLICY_WRITE_COMBINING,
}

#[derive(Debug, Copy, Clone, Eq, PartialEq, Structural)]
pub struct zx_wait_item_t {
    pub handle: zx_handle_t,
    pub waitfor: zx_signals_t,
    pub pending: zx_signals_t,
}

#[derive(Debug, Copy, Clone, Eq, PartialEq, Structural)]
pub struct zx_waitset_result_t {
    pub cookie: u64,
    pub status: zx_status_t,
    pub observed: zx_signals_t,
}

/// The arguments of a channel call. The four buffers are given by their
/// addresses.
#[derive(Debug, Copy, Clone, Eq, PartialEq, Structural)]
pub struct zx_channel_call_args_t {
    pub wr_bytes: zx_addr_t,
    pub wr_handles: zx_addr_t,
    pub rd_bytes: zx_addr_t,
    pub rd_handles: zx_addr_t,
    pub wr_num_bytes: u32,
    pub wr_num_handles: u32,
    pub rd_num_bytes: u32,
    pub rd_num_handles: u32,
}

pub type zx_pci_irq_swizzle_lut_t = [[[u32; 4]; 8]; 32];

#[derive(Debug, Copy, Clone, Eq, PartialEq)]
pub struct zx_pci_init_arg_t {
    pub dev_pin_to_global_irq: zx_pci_irq_swizzle_lut_t,
    pub num_irqs: u32,
    pub irqs: [zx_irq_t; 32],
    pub ecam_window_count: u32,
    /// The kernel reads as many windows as `ecam_window_count` says; the
    /// record itself holds the first.
    pub ecam_windows: [zx_ecam_window_t; 1],
}

#[derive(Debug, Copy, Clone, Eq, PartialEq, Structural)]
pub struct zx_irq_t {
    pub global_irq: u32,
    pub level_triggered: bool,
    pub active_high: bool,
}

#[derive(Debug, Copy, Clone, Eq, PartialEq, Structural)]
pub struct zx_ecam_window_t {
    pub base: u64,
    pub size: usize,
    pub bus_start: u8,
    pub bus_end: u8,
}

#[derive(Debug, Copy, Clone, Eq, PartialEq, Structural)]
pub struct zx_pcie_device_info_t {
    pub vendor_id: u16,
    pub device_id: u16,
    pub base_class: u8,
    pub sub_class: u8,
    pub program_interface: u8,
    pub revision_id: u8,
    pub bus_id: u8,
    pub dev_id: u8,
    pub func_id: u8,
}

#[derive(Debug, Copy, Clone, Eq, PartialEq, Structural)]
pub struct zx_pci_resource_t {
    pub type_: u32,
    pub size: usize,
    pub pio_addr: usize,
}

#[derive(Debug, Copy, Clone, Eq, PartialEq, Structural)]
pub enum zx_packet_type_t {
    ZX_PKT_TYPE_USER,
    ZX_PKT_TYPE_SIGNAL_ONE,
    ZX_PKT_TYPE_SIGNAL_REP,
    ZX_PKT_TYPE_GUEST_BELL,
    ZX_PKT_TYPE_GUEST_MEM,
    ZX_PKT_TYPE_GUEST_IO,
}

impl Default for zx_packet_type_t {
    fn default() -> (t: Self)
        ensures
            t == zx_packet_type_t::ZX_PKT_TYPE_USER,
    {
        zx_packet_type_t::ZX_PKT_TYPE_USER
    }
}

#[derive(Debug, Copy, Clone)]
pub struct zx_packet_signal_t {
    pub trigger: zx_signals_t,
    pub observed: zx_signals_t,
    pub count: u64,
}

#[derive(Debug, Copy, Clone, Eq, PartialEq)]
pub struct zx_port_packet_t {
    pub key: u64,
    pub packet_type: zx_packet_type_t,
    pub status: i32,
    pub union: [u8; 32],
}

impl Default for zx_port_packet_t {
    fn default() -> (p: Self)
        ensures
            p.key == 0,
            p.packet_type == zx_packet_type_t::ZX_PKT_TYPE_USER,
            p.status == 0,
            forall|i: int| 0 <= i < 32 ==> p.union[i] == 0,
    {
        zx_port_packet_t {
            key: 0,
            packet_type: zx_packet_type_t::ZX_PKT_TYPE_USER,
            status: 0,
            union: [0u8; 32],
        }
    }
}

#[derive(Debug, Copy, Clone, Eq, PartialEq, Structural)]
pub struct zx_packet_guest_bell_t {
    pub addr: zx_gpaddr_t,
}

#[derive(Debug, Copy, Clone, Eq, PartialEq)]
pub struct zx_packet_guest_io_t {
    pub port: u16,
    pub access_size: u8,
    pub input: bool,
    pub data: [u8; 4],
}

#[derive(Debug, Copy, Clone, Eq, PartialEq)]
pub struct zx_packet_guest_mem_t {
    pub addr: zx_gpaddr_t,
    pub inst_len: u8,
    pub inst_buf: [u8; 15],
    pub default_operand_size: u8,
}

#[derive(Copy, Clone, Default)]
pub struct zx_info_handle_basic_t {
    pub koid: zx_koid_t,
    pub rights: zx_rights_t,
    pub type_: u32,
    pub related_koid: zx_koid_t,
    pub props: u32,
}

#[derive(Debug, Copy, Clone, Default, Eq, PartialEq, Structural)]
pub struct zx_info_socket_t {
    pub options: u32,
    pub rx_buf_max: usize,
    pub rx_buf_size: usize,
    pub rx_buf_available: usize,
    pub tx_buf_max: usize,
    pub tx_buf_size: usize,
}

} // verus!
