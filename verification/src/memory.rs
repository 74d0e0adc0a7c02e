//! The memory bus: flat little-endian RAM plus memory-mapped devices
//! (framebuffer VRAM, UART, input, audio, SP804 timer, PL190 VIC and the
//! Android goldfish-style devices: framebuffer, MMC, RTC, pipe, binder,
//! logger and ashmem).
use vstd::prelude::*;
use crate::text::{push_char, char_of_byte, byte_char};
use crate::text::{str_contains, has_substring};

verus! {

/// Default RAM size: 16 MB.
pub const DEFAULT_RAM_SIZE: usize = 16777216;

// ── Address map ───────────────────────────────────────────────────────
pub const VRAM_BASE: u32 = 0x0400_0000;
pub const VRAM_WIDTH: usize = 800;
pub const VRAM_HEIGHT: usize = 600;
/// 800 × 600 RGBA bytes.
pub const VRAM_SIZE: usize = 1920000;
pub const VRAM_END: u32 = 0x041D_4C00;

pub const UART_BASE: u32 = 0x1000_0000;
pub const UART_TX: u32 = 0x1000_0000;
pub const UART_RX: u32 = 0x1000_0004;
pub const INPUT_KEY: u32 = 0x1000_0008;
pub const INPUT_TOUCH: u32 = 0x1000_000C;
pub const INPUT_COORD: u32 = 0x1000_0010;
pub const SYS_TIMER: u32 = 0x1000_0014;
pub const AUDIO_CTRL: u32 = 0x1000_0018;
pub const AUDIO_FREQ: u32 = 0x1000_001C;
pub const PERIPH_END: u32 = 0x1000_0020;

pub const VPB_VIC_BASE: u32 = 0x1014_0000;
pub const VPB_TIMER_BASE: u32 = 0x101E_2000;
pub const VPB_UART0_BASE: u32 = 0x101F_1000;
pub const VPB_UART0_FR: u32 = 0x101F_1018;
pub const VPB_PERIPH_START: u32 = 0x1010_0000;
pub const VPB_PERIPH_END: u32 = 0x101F_FFFF;

pub const GOLDFISH_FB_BASE: u32 = 0x1F00_0000;
pub const GOLDFISH_FB_SIZE: u32 = 0x0100_0000;
pub const GOLDFISH_PIPE_BASE: u32 = 0x1D00_0000;
pub const GOLDFISH_PIPE_SIZE: u32 = 0x0010_0000;
pub const BINDER_BASE: u32 = 0x0A00_0000;
pub const BINDER_SIZE: u32 = 0x0010_0000;
pub const GOLDFISH_RTC_BASE: u32 = 0x1010_1000;
pub const MMC_BASE: u32 = 0x1C00_0000;
pub const MMC_SIZE: u32 = 0x0001_0000;
pub const ANDROID_LOG_BASE: u32 = 0x1E00_0000;
pub const ANDROID_LOG_SIZE: u32 = 0x0001_0000;
pub const ASHMEM_BASE: u32 = 0x1B00_0000;
pub const ASHMEM_SIZE: u32 = 0x0001_0000;

// MMC register offsets and commands
pub const MMC_REG_CMD: u32 = 0x00;
pub const MMC_REG_ARG: u32 = 0x04;
pub const MMC_REG_RESP: u32 = 0x08;
pub const MMC_REG_STATUS: u32 = 0x0C;
pub const MMC_REG_DATA: u32 = 0x10;
pub const MMC_REG_CTRL: u32 = 0x14;
pub const MMC_CMD_READ_SINGLE: u32 = 17;
pub const MMC_CMD_READ_MULTIPLE: u32 = 18;
pub const MMC_CMD_STOP_TRANSMISSION: u32 = 12;
pub const MMC_CMD_SEND_STATUS: u32 = 13;
pub const MMC_CMD_APP_CMD: u32 = 55;
/// Response value that flags a failed MMC command.
pub const MMC_RESP_ERROR: u32 = 0x8000_0000;
/// Bytes in one MMC sector.
pub const MMC_SECTOR_BYTES: usize = 512;

// Goldfish pipe registers and commands
pub const PIPE_REG_COMMAND: u32 = 0x00;
pub const PIPE_REG_STATUS: u32 = 0x04;
pub const PIPE_REG_CHANNEL: u32 = 0x08;
pub const PIPE_REG_SIZE: u32 = 0x0c;
pub const PIPE_REG_ADDRESS: u32 = 0x10;
pub const PIPE_REG_WAKES: u32 = 0x14;
pub const PIPE_REG_VERSION: u32 = 0x20;
pub const PIPE_CMD_OPEN: u32 = 1;
pub const PIPE_CMD_CLOSE: u32 = 2;
pub const PIPE_CMD_POLL: u32 = 3;
pub const PIPE_CMD_WRITE: u32 = 4;
pub const PIPE_CMD_READ: u32 = 5;
pub const PIPE_ERROR_INVAL: i32 = -1;
pub const PIPE_ERROR_AGAIN: i32 = -2;
pub const PIPE_POLL_IN: u32 = 1;
pub const PIPE_POLL_OUT: u32 = 2;

// Binder registers
pub const BINDER_REG_VERSION: u32 = 0x00;
pub const BINDER_REG_WRITE_SIZE: u32 = 0x04;
pub const BINDER_REG_WRITE_BUF: u32 = 0x08;
pub const BINDER_REG_READ_SIZE: u32 = 0x0C;
pub const BINDER_REG_READ_BUF: u32 = 0x10;
pub const BINDER_REG_COMMAND: u32 = 0x14;
pub const BINDER_REG_STATUS: u32 = 0x18;
pub const BINDER_REG_TX_COUNT: u32 = 0x1C;
/// Binder protocol version reported by the version register.
pub const BINDER_VERSION: u32 = 7;
/// Command that performs one write/read exchange.
pub const BINDER_CMD_WRITE_READ: u32 = 1;
/// Reply word: the written commands were consumed.
pub const BINDER_REPLY_COMPLETE: u32 = 0x7201_0001;
/// Reply word: no further work.
pub const BINDER_REPLY_NOOP: u32 = 0x7201_000C;
/// Status after a write/read whose read buffer cannot hold the reply.
pub const BINDER_STATUS_SHORT_BUFFER: u32 = 1;

// Android logger registers
pub const LOG_REG_PRIO: u32 = 0x00;
pub const LOG_REG_TAG: u32 = 0x04;
pub const LOG_REG_MSG: u32 = 0x08;
pub const LOG_REG_CTRL: u32 = 0x0C;
pub const LOG_REG_STATUS: u32 = 0x10;
/// Longest tag the logger copies out of RAM.
pub const LOG_TAG_MAX: u32 = 32;
/// Longest message the logger copies out of RAM.
pub const LOG_MSG_MAX: u32 = 256;

// ASHMEM registers and commands
pub const ASHMEM_REG_CMD: u32 = 0x00;
pub const ASHMEM_REG_SIZE: u32 = 0x04;
pub const ASHMEM_REG_PROT: u32 = 0x08;
pub const ASHMEM_REG_PINNED: u32 = 0x0C;
pub const ASHMEM_REG_DATA_PTR: u32 = 0x10;
pub const ASHMEM_REG_STATUS: u32 = 0x14;
pub const ASHMEM_CMD_CREATE: u32 = 1;
pub const ASHMEM_CMD_PIN: u32 = 2;
pub const ASHMEM_CMD_UNPIN: u32 = 3;
pub const ASHMEM_CMD_PURGE: u32 = 4;

/// Android shared memory region (ASHMEM).
#[derive(Debug)]
pub struct SharedMemoryRegion {
    pub id: u32,
    pub size: usize,
    pub data: Vec<u8>,
    pub prot_mask: u32,
    pub pinned: bool,
    pub mapped_addr: Option<u32>,
}

/// Abstract value of a [`SharedMemoryRegion`].
pub struct RegionView {
    pub id: u32,
    pub size: usize,
    pub data: Seq<u8>,
    pub prot_mask: u32,
    pub pinned: bool,
    pub mapped_addr: Option<u32>,
}

impl View for SharedMemoryRegion {
    type V = RegionView;

    open spec fn view(&self) -> RegionView {
        RegionView {
            id: self.id,
            size: self.size,
            data: self.data@,
            prot_mask: self.prot_mask,
            pinned: self.pinned,
            mapped_addr: self.mapped_addr,
        }
    }
}

/// Android logcat entry.
#[derive(Debug)]
pub struct LogEntry {
    pub priority: u8,
    pub tag: String,
    pub message: String,
}

/// Abstract value of a [`LogEntry`].
pub struct LogEntryView {
    pub priority: u8,
    pub tag: Seq<char>,
    pub message: Seq<char>,
}

impl View for LogEntry {
    type V = LogEntryView;

    open spec fn view(&self) -> LogEntryView {
        LogEntryView { priority: self.priority, tag: self.tag@, message: self.message@ }
    }
}

/// Goldfish framebuffer configuration.
#[derive(Debug, Clone, Copy)]
pub struct FbConfig {
    pub width: u32,
    pub height: u32,
    /// 0 = RGBA8888, 1 = RGB565.
    pub format: u32,
    pub enabled: bool,
}

impl FbConfig {
    /// 800×600 RGBA8888, disabled.
    pub open spec fn default_spec() -> FbConfig {
        FbConfig { width: 800, height: 600, format: 0, enabled: false }
    }
}

impl Default for FbConfig {
    fn default() -> (r: Self)
        ensures
            r == FbConfig::default_spec(),
    {
        FbConfig { width: 800, height: 600, format: 0, enabled: false }
    }
}

/// The memory bus with its memory-mapped devices.
///
/// MMIO ranges are intercepted before RAM:
///   0x04000000–0x041D4BFF VRAM (800×600 RGBA),
///   0x10000000–0x1000001F UART / input / timer / audio registers,
///   0x10100000–0x101FFFFF Versatile PB devices (VIC, SP804, PL011, RTC),
///   plus the Android device windows (FB, pipe, binder, MMC, logger, ashmem).
#[derive(Debug)]
pub struct Mmu {
    pub ram: Vec<u8>,
    pub vram: Vec<u8>,
    pub uart_tx_buffer: String,
    pub key_state: u32,
    pub touch_down: bool,
    pub touch_x: u16,
    pub touch_y: u16,
    pub sys_timer: u32,
    pub audio_ctrl: u32,
    pub audio_freq: u32,
    pub timer1_load: u32,
    pub timer1_value: u32,
    pub timer1_ctrl: u32,
    pub vic_int_enable: u32,
    pub vic_int_status: u32,
    pub irq_pending: bool,
    pub logger_buffer: Vec<LogEntry>,
    pub goldfish_fb_config: FbConfig,
    pub mmc_card_data: Option<Vec<u8>>,
    pub goldfish_rtc: u64,
    pub binder_seq: u32,
    pub binder_write_size: u32,
    pub binder_write_buf: u32,
    pub binder_read_size: u32,
    pub binder_read_buf: u32,
    pub binder_status: u32,
    pub binder_tx_count: u32,
    pub mmc_cmd: u32,
    pub mmc_arg: u32,
    pub mmc_resp: u32,
    pub mmc_status: u32,
    pub mmc_data: u32,
    pub mmc_current_sector: u32,
    pub mmc_sector_buffer: Vec<u8>,
    pub mmc_buffer_offset: usize,
    pub mmc_multi_active: bool,
    pub pipe_cmd: u32,
    pub pipe_status: i32,
    pub pipe_channel: u32,
    pub pipe_size: u32,
    pub pipe_address: u32,
    pub pipe_wakes: u32,
    pub pipe_channels: Vec<String>,
    pub pipe_rx: Vec<u8>,
    pub logger_read_pos: usize,
    pub logger_max_entries: usize,
    pub log_prio: u32,
    pub log_tag_ptr: u32,
    pub log_msg_ptr: u32,
    pub log_ctrl: u32,
    pub ashmem_cmd: u32,
    pub ashmem_size: u32,
    pub ashmem_prot: u32,
    pub ashmem_pinned: u32,
    pub ashmem_data_ptr: u32,
    pub ashmem_status: u32,
    pub ashmem_regions: Vec<SharedMemoryRegion>,
}

/// Abstract value of an [`Mmu`]: every field by its view.
#[verifier::ext_equal]
pub struct MmuView {
    pub ram: Seq<u8>,
    pub vram: Seq<u8>,
    pub uart_tx_buffer: Seq<char>,
    pub key_state: u32,
    pub touch_down: bool,
    pub touch_x: u16,
    pub touch_y: u16,
    pub sys_timer: u32,
    pub audio_ctrl: u32,
    pub audio_freq: u32,
    pub timer1_load: u32,
    pub timer1_value: u32,
    pub timer1_ctrl: u32,
    pub vic_int_enable: u32,
    pub vic_int_status: u32,
    pub irq_pending: bool,
    pub logger_buffer: Seq<LogEntryView>,
    pub goldfish_fb_config: FbConfig,
    pub mmc_card_data: Option<Seq<u8>>,
    pub goldfish_rtc: u64,
    pub binder_seq: u32,
    pub binder_write_size: u32,
    pub binder_write_buf: u32,
    pub binder_read_size: u32,
    pub binder_read_buf: u32,
    pub binder_status: u32,
    pub binder_tx_count: u32,
    pub mmc_cmd: u32,
    pub mmc_arg: u32,
    pub mmc_resp: u32,
    pub mmc_status: u32,
    pub mmc_data: u32,
    pub mmc_current_sector: u32,
    pub mmc_sector_buffer: Seq<u8>,
    pub mmc_buffer_offset: usize,
    pub mmc_multi_active: bool,
    pub pipe_cmd: u32,
    pub pipe_status: i32,
    pub pipe_channel: u32,
    pub pipe_size: u32,
    pub pipe_address: u32,
    pub pipe_wakes: u32,
    pub pipe_channels: Seq<Seq<char>>,
    pub pipe_rx: Seq<u8>,
    pub logger_read_pos: usize,
    pub logger_max_entries: usize,
    pub log_prio: u32,
    pub log_tag_ptr: u32,
    pub log_msg_ptr: u32,
    pub log_ctrl: u32,
    pub ashmem_cmd: u32,
    pub ashmem_size: u32,
    pub ashmem_prot: u32,
    pub ashmem_pinned: u32,
    pub ashmem_data_ptr: u32,
    pub ashmem_status: u32,
    pub ashmem_regions: Seq<RegionView>,
}

impl View for Mmu {
    type V = MmuView;

    open spec fn view(&self) -> MmuView {
        MmuView {
            ram: self.ram@,
            vram: self.vram@,
            uart_tx_buffer: self.uart_tx_buffer@,
            key_state: self.key_state,
            touch_down: self.touch_down,
            touch_x: self.touch_x,
            touch_y: self.touch_y,
            sys_timer: self.sys_timer,
            audio_ctrl: self.audio_ctrl,
            audio_freq: self.audio_freq,
            timer1_load: self.timer1_load,
            timer1_value: self.timer1_value,
            timer1_ctrl: self.timer1_ctrl,
            vic_int_enable: self.vic_int_enable,
            vic_int_status: self.vic_int_status,
            irq_pending: self.irq_pending,
            logger_buffer: self.logger_buffer@.map_values(|e: LogEntry| e@),
            goldfish_fb_config: self.goldfish_fb_config,
            mmc_card_data: match self.mmc_card_data {
                Some(d) => Some(d@),
                None => None,
            },
            goldfish_rtc: self.goldfish_rtc,
            binder_seq: self.binder_seq,
            binder_write_size: self.binder_write_size,
            binder_write_buf: self.binder_write_buf,
            binder_read_size: self.binder_read_size,
            binder_read_buf: self.binder_read_buf,
            binder_status: self.binder_status,
            binder_tx_count: self.binder_tx_count,
            mmc_cmd: self.mmc_cmd,
            mmc_arg: self.mmc_arg,
            mmc_resp: self.mmc_resp,
            mmc_status: self.mmc_status,
            mmc_data: self.mmc_data,
            mmc_current_sector: self.mmc_current_sector,
            mmc_sector_buffer: self.mmc_sector_buffer@,
            mmc_buffer_offset: self.mmc_buffer_offset,
            mmc_multi_active: self.mmc_multi_active,
            pipe_cmd: self.pipe_cmd,
            pipe_status: self.pipe_status,
            pipe_channel: self.pipe_channel,
            pipe_size: self.pipe_size,
            pipe_address: self.pipe_address,
            pipe_wakes: self.pipe_wakes,
            pipe_channels: self.pipe_channels@.map_values(|s: String| s@),
            pipe_rx: self.pipe_rx@,
            logger_read_pos: self.logger_read_pos,
            logger_max_entries: self.logger_max_entries,
            log_prio: self.log_prio,
            log_tag_ptr: self.log_tag_ptr,
            log_msg_ptr: self.log_msg_ptr,
            log_ctrl: self.log_ctrl,
            ashmem_cmd: self.ashmem_cmd,
            ashmem_size: self.ashmem_size,
            ashmem_prot: self.ashmem_prot,
            ashmem_pinned: self.ashmem_pinned,
            ashmem_data_ptr: self.ashmem_data_ptr,
            ashmem_status: self.ashmem_status,
            ashmem_regions: self.ashmem_regions@.map_values(|r: SharedMemoryRegion| r@),
        }
    }
}

// ── Address classification ────────────────────────────────────────────

pub open spec fn in_vram(addr: u32) -> bool {
    VRAM_BASE <= addr && addr < VRAM_END
}

pub open spec fn in_legacy_periph(addr: u32) -> bool {
    UART_BASE <= addr && addr < PERIPH_END
}

pub open spec fn in_vpb_periph(addr: u32) -> bool {
    VPB_PERIPH_START <= addr && addr <= VPB_PERIPH_END
}

pub open spec fn in_fb(addr: u32) -> bool {
    GOLDFISH_FB_BASE <= addr && addr < GOLDFISH_FB_BASE + GOLDFISH_FB_SIZE
}

pub open spec fn in_pipe(addr: u32) -> bool {
    GOLDFISH_PIPE_BASE <= addr && addr < GOLDFISH_PIPE_BASE + GOLDFISH_PIPE_SIZE
}

pub open spec fn in_binder(addr: u32) -> bool {
    BINDER_BASE <= addr && addr < BINDER_BASE + BINDER_SIZE
}

pub open spec fn in_mmc(addr: u32) -> bool {
    MMC_BASE <= addr && addr < MMC_BASE + MMC_SIZE
}

pub open spec fn in_rtc(addr: u32) -> bool {
    GOLDFISH_RTC_BASE <= addr && addr < GOLDFISH_RTC_BASE + 0x1000
}

pub open spec fn in_logger(addr: u32) -> bool {
    ANDROID_LOG_BASE <= addr && addr < ANDROID_LOG_BASE + ANDROID_LOG_SIZE
}

pub open spec fn in_ashmem(addr: u32) -> bool {
    ASHMEM_BASE <= addr && addr < ASHMEM_BASE + ASHMEM_SIZE
}

pub open spec fn in_android_periph(addr: u32) -> bool {
    in_fb(addr) || in_pipe(addr) || in_binder(addr) || in_mmc(addr) || in_rtc(addr)
        || in_logger(addr) || in_ashmem(addr)
}

pub open spec fn in_periph(addr: u32) -> bool {
    in_legacy_periph(addr) || in_vpb_periph(addr) || in_android_periph(addr)
}

/// The VRAM contents after reset: every pixel opaque black.
pub open spec fn vram_reset() -> Seq<u8> {
    Seq::new(VRAM_SIZE as nat, |i: int| if i % 4 == 3 { 255u8 } else { 0u8 })
}

/// Byte `n` (0 = least significant) of a little-endian word.
pub open spec fn byte_of(w: u32, n: u32) -> u8 {
    ((w >> (n * 8)) & 0xFF) as u8
}

/// Little-endian composition of four bytes.
pub open spec fn le_word(b0: u8, b1: u8, b2: u8, b3: u8) -> u32 {
    (b0 as u32) | ((b1 as u32) << 8) | ((b2 as u32) << 16) | ((b3 as u32) << 24)
}

impl MmuView {
    /// The invariant every operation keeps: full-size VRAM and sector
    /// buffer, and room for at least one log entry.
    pub open spec fn wf(self) -> bool {
        &&& self.vram.len() == VRAM_SIZE
        &&& self.mmc_sector_buffer.len() == MMC_SECTOR_BYTES
        &&& self.logger_max_entries > 0
    }

    // ── UART ──────────────────────────────────────────────────────────

    /// A byte sent to the UART: a newline flushes the line buffer, any
    /// other byte is appended as a character.
    pub open spec fn uart_byte(self, val: u8) -> MmuView {
        if val == 10 {
            MmuView { uart_tx_buffer: Seq::empty(), ..self }
        } else {
            MmuView { uart_tx_buffer: self.uart_tx_buffer.push(byte_char(val)), ..self }
        }
    }

    pub open spec fn vic_updated(self) -> MmuView {
        MmuView { irq_pending: (self.vic_int_status & self.vic_int_enable) != 0, ..self }
    }

    // ── MMC ───────────────────────────────────────────────────────────

    /// Whether sector `arg` lies wholly inside the mounted card image.
    pub open spec fn sector_in_card(self, arg: u32) -> bool {
        match self.mmc_card_data {
            Some(d) => (arg as int) * 512 + 512 <= d.len(),
            None => false,
        }
    }

    /// Loads sector `arg` into the sector buffer (zeros and end of any
    /// multi-block transfer when it is not on the card).
    pub open spec fn load_sector(self, arg: u32) -> MmuView {
        let v = MmuView { mmc_current_sector: arg, mmc_buffer_offset: 0, ..self };
        if self.sector_in_card(arg) {
            MmuView {
                mmc_sector_buffer: self.mmc_card_data.unwrap().subrange(
                    (arg as int) * 512,
                    (arg as int) * 512 + 512,
                ),
                ..v
            }
        } else {
            MmuView {
                mmc_sector_buffer: Seq::new(512, |i: int| 0u8),
                mmc_multi_active: false,
                ..v
            }
        }
    }

    /// A read command for sector `arg`: load it and report success or error.
    pub open spec fn load_sector_cmd(self, arg: u32) -> MmuView {
        let v = self.load_sector(arg);
        if self.sector_in_card(arg) {
            MmuView { mmc_resp: 0, ..v }
        } else {
            MmuView { mmc_resp: MMC_RESP_ERROR, mmc_multi_active: false, ..v }
        }
    }

    /// The effect of writing the MMC command register.
    pub open spec fn mmc_command(self) -> MmuView {
        let cmd = self.mmc_cmd & 0x3F;
        let arg = self.mmc_arg;
        if cmd == MMC_CMD_STOP_TRANSMISSION {
            MmuView { mmc_multi_active: false, mmc_resp: 0, ..self }
        } else if cmd == MMC_CMD_READ_SINGLE {
            MmuView { mmc_multi_active: false, ..self }.load_sector_cmd(arg)
        } else if cmd == MMC_CMD_READ_MULTIPLE {
            MmuView { mmc_multi_active: true, ..self }.load_sector_cmd(arg)
        } else if cmd == MMC_CMD_SEND_STATUS {
            MmuView { mmc_resp: if self.mmc_card_data is Some { 1 } else { 0 }, ..self }
        } else if cmd == MMC_CMD_APP_CMD {
            MmuView { mmc_resp: 0, ..self }
        } else {
            MmuView { mmc_resp: MMC_RESP_ERROR, ..self }
        }
    }

    /// Byte `i` of the sector buffer (zero past its end).
    pub open spec fn sector_byte(self, i: int) -> u8 {
        if 0 <= i < self.mmc_sector_buffer.len() { self.mmc_sector_buffer[i] } else { 0 }
    }

    /// The word the MMC data port returns.
    pub open spec fn mmc_data_word(self) -> u32 {
        let off = self.mmc_buffer_offset as int;
        if off >= 512 {
            0
        } else {
            le_word(self.sector_byte(off), self.sector_byte(off + 1), self.sector_byte(off + 2), self.sector_byte(off + 3))
        }
    }

    /// The state after a data-port read: the buffer offset advances by one
    /// word and, during a multi-block read, the next sector is loaded once
    /// the buffer is used up.
    pub open spec fn after_mmc_data_read(self) -> MmuView {
        let off = self.mmc_buffer_offset as int;
        if off >= 512 {
            self
        } else {
            let v = MmuView { mmc_buffer_offset: (off + 4) as usize, ..self };
            if off + 4 >= 512 && self.mmc_multi_active {
                v.load_sector(self.mmc_current_sector.wrapping_add(1))
            } else {
                v
            }
        }
    }

    // ── Register reads ────────────────────────────────────────────────

    /// Value of a framebuffer register.
    pub open spec fn fb_reg(self, off: u32) -> u32 {
        if off == 0x00 { self.goldfish_fb_config.width }
        else if off == 0x04 { self.goldfish_fb_config.height }
        else if off == 0x08 { self.goldfish_fb_config.format }
        else if off == 0x0C { if self.goldfish_fb_config.enabled { 1 } else { 0 } }
        else if off == 0x10 { VRAM_BASE }
        else { 0 }
    }

    /// MMC status: bit0 card present, bit1 ready, bit2 data available,
    /// bit3 multi-block transfer active.
    pub open spec fn mmc_status_word(self) -> u32 {
        let present: u32 = if self.mmc_card_data is Some { 1 } else { 0 };
        let avail: u32 = if self.mmc_buffer_offset < 512 { 1 } else { 0 };
        let multi: u32 = if self.mmc_multi_active { 1 } else { 0 };
        present | (present << 1) | (avail << 2) | (multi << 3)
    }

    /// Value of an MMC register other than the data port.
    pub open spec fn mmc_reg(self, off: u32) -> u32 {
        if off == MMC_REG_CMD { self.mmc_cmd }
        else if off == MMC_REG_ARG { self.mmc_arg }
        else if off == MMC_REG_RESP { self.mmc_resp }
        else if off == MMC_REG_STATUS { self.mmc_status_word() }
        else { 0 }
    }

    pub open spec fn rtc_reg(self, off: u32) -> u32 {
        if off == 0x00 { (self.goldfish_rtc & 0xFFFF_FFFF) as u32 }
        else if off == 0x04 { (self.goldfish_rtc >> 32) as u32 }
        else { 0 }
    }

    pub open spec fn binder_reg(self, off: u32) -> u32 {
        if off == BINDER_REG_VERSION { BINDER_VERSION }
        else if off == BINDER_REG_WRITE_SIZE { self.binder_write_size }
        else if off == BINDER_REG_WRITE_BUF { self.binder_write_buf }
        else if off == BINDER_REG_READ_SIZE { self.binder_read_size }
        else if off == BINDER_REG_READ_BUF { self.binder_read_buf }
        else if off == BINDER_REG_STATUS { self.binder_status }
        else if off == BINDER_REG_TX_COUNT { self.binder_tx_count }
        else { 0 }
    }

    pub open spec fn pipe_reg(self, off: u32) -> u32 {
        if off == PIPE_REG_COMMAND { self.pipe_cmd }
        else if off == PIPE_REG_STATUS { self.pipe_status as u32 }
        else if off == PIPE_REG_CHANNEL { self.pipe_channel }
        else if off == PIPE_REG_SIZE { self.pipe_size }
        else if off == PIPE_REG_ADDRESS { self.pipe_address }
        else if off == PIPE_REG_WAKES { self.pipe_wakes }
        else if off == PIPE_REG_VERSION { 1 }
        else { 0 }
    }

    /// Logger status: bit0 ready, bit1 buffer full.
    pub open spec fn logger_reg(self, off: u32) -> u32 {
        if off == LOG_REG_PRIO { self.log_prio }
        else if off == LOG_REG_TAG { self.log_tag_ptr }
        else if off == LOG_REG_MSG { self.log_msg_ptr }
        else if off == LOG_REG_CTRL { self.log_ctrl }
        else if off == LOG_REG_STATUS {
            if self.logger_buffer.len() >= self.logger_max_entries { 3 } else { 1 }
        }
        else { 0 }
    }

    pub open spec fn ashmem_reg(self, off: u32) -> u32 {
        if off == ASHMEM_REG_CMD { self.ashmem_cmd }
        else if off == ASHMEM_REG_SIZE { self.ashmem_size }
        else if off == ASHMEM_REG_PROT { self.ashmem_prot }
        else if off == ASHMEM_REG_PINNED { self.ashmem_pinned }
        else if off == ASHMEM_REG_DATA_PTR { self.ashmem_data_ptr }
        else if off == ASHMEM_REG_STATUS { self.ashmem_status }
        else { 0 }
    }

    pub open spec fn vpb_reg(self, addr: u32) -> u32 {
        if VPB_VIC_BASE <= addr && addr < VPB_VIC_BASE + 0x1000 {
            if addr - VPB_VIC_BASE == 0 { self.vic_int_status }
            else if addr - VPB_VIC_BASE == 0x10 { self.vic_int_enable }
            else { 0 }
        } else if VPB_TIMER_BASE <= addr && addr < VPB_TIMER_BASE + 0x20 {
            if addr - VPB_TIMER_BASE == 0 { self.timer1_load }
            else if addr - VPB_TIMER_BASE == 4 { self.timer1_value }
            else if addr - VPB_TIMER_BASE == 8 { self.timer1_ctrl }
            else { 0 }
        } else {
            0
        }
    }

    pub open spec fn legacy_reg(self, addr: u32) -> u32 {
        if addr == INPUT_KEY { self.key_state }
        else if addr == INPUT_TOUCH { if self.touch_down { 1 } else { 0 } }
        else if addr == INPUT_COORD { ((self.touch_y as u32) << 16) | (self.touch_x as u32) }
        else if addr == SYS_TIMER { self.sys_timer }
        else if addr == AUDIO_CTRL { self.audio_ctrl }
        else if addr == AUDIO_FREQ { self.audio_freq }
        else { 0 }
    }

    /// A 32-bit read of a device register: its value and the device state
    /// afterwards (only the MMC data port changes state when read).
    #[verifier::opaque]
    pub open spec fn periph_read(self, addr: u32) -> (u32, MmuView) {
        if in_android_periph(addr) && GOLDFISH_FB_BASE <= addr && addr < GOLDFISH_FB_BASE + 0x100 {
            (self.fb_reg((addr - GOLDFISH_FB_BASE) as u32), self)
        } else if in_android_periph(addr) && in_mmc(addr) {
            if addr - MMC_BASE == MMC_REG_DATA {
                (self.mmc_data_word(), self.after_mmc_data_read())
            } else {
                (self.mmc_reg((addr - MMC_BASE) as u32), self)
            }
        } else if in_android_periph(addr) && in_rtc(addr) {
            (self.rtc_reg((addr - GOLDFISH_RTC_BASE) as u32), self)
        } else if in_android_periph(addr) && BINDER_BASE <= addr && addr < BINDER_BASE + 0x100 {
            (self.binder_reg((addr - BINDER_BASE) as u32), self)
        } else if in_android_periph(addr) && in_pipe(addr) {
            (self.pipe_reg((addr - GOLDFISH_PIPE_BASE) as u32), self)
        } else if in_android_periph(addr) && in_logger(addr) {
            (self.logger_reg((addr - ANDROID_LOG_BASE) as u32), self)
        } else if in_android_periph(addr) && in_ashmem(addr) {
            (self.ashmem_reg((addr - ASHMEM_BASE) as u32), self)
        } else if in_vpb_periph(addr) {
            (self.vpb_reg(addr), self)
        } else {
            (self.legacy_reg(addr), self)
        }
    }

    // ── Loads ─────────────────────────────────────────────────────────

    /// A byte load: its value and the state afterwards.
    #[verifier::opaque]
    pub open spec fn load8(self, addr: u32) -> (u8, MmuView) {
        if in_vram(addr) {
            (self.vram[addr - VRAM_BASE], self)
        } else if in_periph(addr) {
            let r = self.periph_read(addr & !3u32);
            (byte_of(r.0, addr & 3), r.1)
        } else if (addr as int) < self.ram.len() {
            (self.ram[addr as int], self)
        } else {
            (0, self)
        }
    }

    /// A little-endian halfword load, byte by byte.
    #[verifier::opaque]
    pub open spec fn load16(self, addr: u32) -> (u16, MmuView) {
        let (lo, v1) = self.load8(addr);
        let (hi, v2) = v1.load8(addr.wrapping_add(1));
        (((lo as u16) | ((hi as u16) << 8)) as u16, v2)
    }

    /// A little-endian word load.
    #[verifier::opaque]
    pub open spec fn load32(self, addr: u32) -> (u32, MmuView) {
        if in_vram(addr) && in_vram(addr.wrapping_add(3)) {
            let o = addr - VRAM_BASE;
            (le_word(self.vram[o], self.vram[o + 1], self.vram[o + 2], self.vram[o + 3]), self)
        } else if in_periph(addr) {
            self.periph_read(addr)
        } else {
            let (b0, v1) = self.load8(addr);
            let (b1, v2) = v1.load8(addr.wrapping_add(1));
            let (b2, v3) = v2.load8(addr.wrapping_add(2));
            let (b3, v4) = v3.load8(addr.wrapping_add(3));
            (le_word(b0, b1, b2, b3), v4)
        }
    }

    /// The NUL-terminated string of at most `max - i` bytes read from
    /// `base + i` onwards (wrapping), each byte taken as a character.
    pub open spec fn read_cstr(self, base: u32, i: u32, max: u32) -> (Seq<char>, MmuView)
        decreases max - i,
    {
        if i >= max {
            (Seq::empty(), self)
        } else {
            let (b, v1) = self.load8(base.wrapping_add(i));
            if b == 0 {
                (Seq::empty(), v1)
            } else {
                let (rest, v2) = v1.read_cstr(base, (i + 1) as u32, max);
                (seq![byte_char(b)] + rest, v2)
            }
        }
    }

    /// State after `max - i` byte loads from `base + i` onwards whose
    /// values are discarded.
    pub open spec fn skip_reads(self, base: u32, i: u32, max: u32) -> MmuView
        decreases max - i,
    {
        if i >= max {
            self
        } else {
            self.load8(base.wrapping_add(i)).1.skip_reads(base, (i + 1) as u32, max)
        }
    }

    // ── Stores ────────────────────────────────────────────────────────

    /// A byte store.
    #[verifier::opaque]
    pub open spec fn store8(self, addr: u32, val: u8) -> MmuView {
        if in_vram(addr) {
            MmuView { vram: self.vram.update(addr - VRAM_BASE, val), ..self }
        } else if addr == VPB_UART0_BASE || addr == UART_TX {
            self.uart_byte(val)
        } else if addr == AUDIO_CTRL {
            MmuView { audio_ctrl: (self.audio_ctrl & 0xFFFF_FF00) | (val as u32), ..self }
        } else if addr == AUDIO_FREQ {
            MmuView { audio_freq: (self.audio_freq & 0xFFFF_FF00) | (val as u32), ..self }
        } else if in_periph(addr) {
            self
        } else if (addr as int) < self.ram.len() {
            MmuView { ram: self.ram.update(addr as int, val), ..self }
        } else {
            self
        }
    }

    /// Bytes `data[i..]` stored at `base + i` onwards (wrapping).
    pub open spec fn store_bytes(self, base: u32, data: Seq<u8>, i: int) -> MmuView
        decreases data.len() - i,
    {
        if i >= data.len() || i < 0 {
            self
        } else {
            self.store8(base.wrapping_add(i as u32), data[i]).store_bytes(base, data, i + 1)
        }
    }

    /// Four byte stores of a little-endian word (no device commands).
    pub open spec fn store_word_bytes(self, addr: u32, val: u32) -> MmuView {
        self.store8(addr, byte_of(val, 0))
            .store8(addr.wrapping_add(1), byte_of(val, 1))
            .store8(addr.wrapping_add(2), byte_of(val, 2))
            .store8(addr.wrapping_add(3), byte_of(val, 3))
    }

    /// A halfword store.
    #[verifier::opaque]
    pub open spec fn store16(self, addr: u32, val: u16) -> MmuView {
        if in_periph(addr) {
            if addr == VPB_UART0_BASE || addr == UART_TX {
                self.uart_byte((val & 0xFF) as u8)
            } else if addr == AUDIO_CTRL {
                MmuView { audio_ctrl: val as u32, ..self }
            } else if addr == AUDIO_FREQ {
                MmuView { audio_freq: val as u32, ..self }
            } else {
                self
            }
        } else {
            self.store8(addr, (val & 0xFF) as u8).store8(addr.wrapping_add(1), ((val >> 8) & 0xFF) as u8)
        }
    }
}


/// `"qemud"` as characters.
pub open spec fn qemud_chars() -> Seq<char> {
    seq!['q', 'e', 'm', 'u', 'd']
}

/// `"pipe"` as characters.
pub open spec fn pipe_chars() -> Seq<char> {
    seq!['p', 'i', 'p', 'e']
}

/// The canned reply a ping-style pipe service queues: `"ok\n"`.
pub open spec fn pipe_reply() -> Seq<u8> {
    seq![111u8, 107u8, 10u8]
}

pub open spec fn min_u32(a: u32, b: u32) -> u32 {
    if a < b { a } else { b }
}

impl MmuView {
    /// The state of a freshly created bus with `size` bytes of RAM.
    pub open spec fn initial(size: usize) -> MmuView {
        MmuView {
            ram: Seq::new(size as nat, |i: int| 0u8),
            vram: vram_reset(),
            uart_tx_buffer: Seq::empty(),
            key_state: 0,
            touch_down: false,
            touch_x: 0,
            touch_y: 0,
            sys_timer: 0,
            audio_ctrl: 0,
            audio_freq: 0,
            timer1_load: 0,
            timer1_value: 0,
            timer1_ctrl: 0,
            vic_int_enable: 0,
            vic_int_status: 0,
            irq_pending: false,
            logger_buffer: Seq::empty(),
            goldfish_fb_config: FbConfig::default_spec(),
            mmc_card_data: None,
            goldfish_rtc: 0,
            binder_seq: 0,
            binder_write_size: 0,
            binder_write_buf: 0,
            binder_read_size: 0,
            binder_read_buf: 0,
            binder_status: 0,
            binder_tx_count: 0,
            mmc_cmd: 0,
            mmc_arg: 0,
            mmc_resp: 0,
            mmc_status: 0,
            mmc_data: 0,
            mmc_current_sector: 0,
            mmc_sector_buffer: Seq::new(512, |i: int| 0u8),
            mmc_buffer_offset: 0,
            mmc_multi_active: false,
            pipe_cmd: 0,
            pipe_status: 0,
            pipe_channel: 0,
            pipe_size: 0,
            pipe_address: 0,
            pipe_wakes: 0,
            pipe_channels: Seq::empty(),
            pipe_rx: Seq::empty(),
            logger_read_pos: 0,
            logger_max_entries: 1024,
            log_prio: 0,
            log_tag_ptr: 0,
            log_msg_ptr: 0,
            log_ctrl: 0,
            ashmem_cmd: 0,
            ashmem_size: 0,
            ashmem_prot: 0,
            ashmem_pinned: 0,
            ashmem_data_ptr: 0,
            ashmem_status: 0,
            ashmem_regions: Seq::empty(),
        }
    }

    /// Whether `pipe_channel` names an opened (1-based) channel slot.
    pub open spec fn pipe_id_valid(self) -> bool {
        1 <= self.pipe_channel as int && self.pipe_channel as int <= self.pipe_channels.len()
    }

    /// Whether `pipe_channel` names an open channel whose name is not empty.
    pub open spec fn pipe_id_open(self) -> bool {
        self.pipe_id_valid() && self.pipe_channels[self.pipe_channel as int - 1].len() > 0
    }

    pub open spec fn pipe_open(self) -> MmuView {
        let (name, v1) = self.read_cstr(self.pipe_address, 0, min_u32(self.pipe_size, 256));
        if name.len() == 0 {
            MmuView { pipe_status: PIPE_ERROR_INVAL, ..v1 }
        } else {
            MmuView {
                pipe_channels: v1.pipe_channels.push(name),
                pipe_channel: (v1.pipe_channels.len() + 1) as u32,
                pipe_status: 0,
                pipe_wakes: PIPE_POLL_OUT,
                ..v1
            }
        }
    }

    pub open spec fn pipe_write(self) -> MmuView {
        let v1 = self.skip_reads(self.pipe_address, 0, min_u32(self.pipe_size, 4096));
        let svc = v1.pipe_channels[self.pipe_channel as int - 1];
        let v2 = if has_substring(svc, qemud_chars()) || has_substring(svc, pipe_chars()) {
            MmuView {
                pipe_rx: v1.pipe_rx + pipe_reply(),
                pipe_wakes: PIPE_POLL_IN | PIPE_POLL_OUT,
                ..v1
            }
        } else {
            v1
        };
        MmuView { pipe_status: 0, ..v2 }
    }

    pub open spec fn pipe_read(self) -> MmuView {
        let want = min_u32(self.pipe_size, 4096) as int;
        let n = if want < self.pipe_rx.len() { want } else { self.pipe_rx.len() as int };
        let chunk = self.pipe_rx.subrange(0, n);
        let v1 = MmuView { pipe_rx: self.pipe_rx.subrange(n, self.pipe_rx.len() as int), ..self };
        let v2 = v1.store_bytes(self.pipe_address, chunk, 0);
        MmuView {
            pipe_size: n as u32,
            pipe_status: 0,
            pipe_wakes: if v2.pipe_rx.len() == 0 { PIPE_POLL_OUT } else { v2.pipe_wakes },
            ..v2
        }
    }

    /// The effect of writing the pipe command register.
    pub open spec fn pipe_command(self) -> MmuView {
        let cmd = self.pipe_cmd;
        if cmd == PIPE_CMD_OPEN {
            self.pipe_open()
        } else if cmd == PIPE_CMD_CLOSE {
            if !self.pipe_id_valid() {
                MmuView { pipe_status: PIPE_ERROR_INVAL, ..self }
            } else {
                MmuView {
                    pipe_channels: self.pipe_channels.update(self.pipe_channel as int - 1, Seq::empty()),
                    pipe_status: 0,
                    pipe_wakes: 0,
                    ..self
                }
            }
        } else if cmd == PIPE_CMD_POLL {
            if !self.pipe_id_open() {
                MmuView { pipe_status: PIPE_ERROR_INVAL, ..self }
            } else {
                MmuView {
                    pipe_wakes: if self.pipe_rx.len() > 0 { PIPE_POLL_OUT | PIPE_POLL_IN } else { PIPE_POLL_OUT },
                    pipe_status: 0,
                    ..self
                }
            }
        } else if cmd == PIPE_CMD_WRITE {
            if !self.pipe_id_open() {
                MmuView { pipe_status: PIPE_ERROR_INVAL, ..self }
            } else {
                self.pipe_write()
            }
        } else if cmd == PIPE_CMD_READ {
            if self.pipe_rx.len() == 0 {
                MmuView { pipe_status: PIPE_ERROR_AGAIN, ..self }
            } else {
                self.pipe_read()
            }
        } else {
            MmuView { pipe_status: PIPE_ERROR_INVAL, ..self }
        }
    }

    /// Appends one logcat entry read from the tag and message pointers,
    /// dropping the oldest entry when the buffer is full.
    pub open spec fn log_write(self) -> MmuView {
        let prio = (self.log_prio & 0xFF) as u8;
        let (tag, v1) = self.read_cstr(self.log_tag_ptr, 0, LOG_TAG_MAX);
        let (msg, v2) = v1.read_cstr(self.log_msg_ptr, 0, LOG_MSG_MAX);
        let kept = if v2.logger_buffer.len() >= v2.logger_max_entries {
            v2.logger_buffer.drop_first()
        } else {
            v2.logger_buffer
        };
        MmuView {
            logger_buffer: kept.push(LogEntryView { priority: prio, tag: tag, message: msg }),
            ..v2
        }
    }

    /// The effect of writing the ashmem command register.
    pub open spec fn ashmem_command(self) -> MmuView {
        let cmd = self.ashmem_cmd;
        let i = self.ashmem_data_ptr as int;
        if cmd == ASHMEM_CMD_CREATE {
            let id = self.ashmem_regions.len() as u32;
            let region = RegionView {
                id: id,
                size: self.ashmem_size as usize,
                data: Seq::new(self.ashmem_size as nat, |k: int| 0u8),
                prot_mask: self.ashmem_prot,
                pinned: false,
                mapped_addr: None,
            };
            MmuView {
                ashmem_regions: self.ashmem_regions.push(region),
                ashmem_data_ptr: id,
                ashmem_status: 1,
                ..self
            }
        } else if cmd == ASHMEM_CMD_PIN {
            if i < self.ashmem_regions.len() {
                MmuView {
                    ashmem_regions: self.ashmem_regions.update(i, RegionView { pinned: true, ..self.ashmem_regions[i] }),
                    ashmem_pinned: 1,
                    ..self
                }
            } else {
                self
            }
        } else if cmd == ASHMEM_CMD_UNPIN {
            if i < self.ashmem_regions.len() {
                MmuView {
                    ashmem_regions: self.ashmem_regions.update(i, RegionView { pinned: false, ..self.ashmem_regions[i] }),
                    ashmem_pinned: 0,
                    ..self
                }
            } else {
                self
            }
        } else if cmd == ASHMEM_CMD_PURGE {
            MmuView {
                ashmem_regions: Seq::new(self.ashmem_regions.len(), |k: int|
                    if self.ashmem_regions[k].pinned {
                        self.ashmem_regions[k]
                    } else {
                        RegionView { data: Seq::empty(), ..self.ashmem_regions[k] }
                    }),
                ..self
            }
        } else {
            self
        }
    }

    /// One binder write/read exchange: the written commands are counted
    /// and, when the read buffer holds two words, a completion and a no-op
    /// reply are stored there.
    pub open spec fn binder_write_read(self) -> MmuView {
        let v = MmuView {
            binder_tx_count: self.binder_tx_count.wrapping_add(self.binder_write_size / 4),
            ..self
        };
        if self.binder_read_size >= 8 {
            let v1 = v.store_word_bytes(self.binder_read_buf, BINDER_REPLY_COMPLETE);
            let v2 = v1.store_word_bytes(self.binder_read_buf.wrapping_add(4), BINDER_REPLY_NOOP);
            MmuView { binder_status: 0, ..v2 }
        } else {
            MmuView { binder_status: BINDER_STATUS_SHORT_BUFFER, ..v }
        }
    }

    /// A 32-bit store into the binder window; every store counts one
    /// transaction in `binder_seq`.
    pub open spec fn binder_store(self, off: u32, val: u32) -> MmuView {
        let v = if off == BINDER_REG_WRITE_SIZE {
            MmuView { binder_write_size: val, ..self }
        } else if off == BINDER_REG_WRITE_BUF {
            MmuView { binder_write_buf: val, ..self }
        } else if off == BINDER_REG_READ_SIZE {
            MmuView { binder_read_size: val, ..self }
        } else if off == BINDER_REG_READ_BUF {
            MmuView { binder_read_buf: val, ..self }
        } else if off == BINDER_REG_COMMAND && val == BINDER_CMD_WRITE_READ {
            self.binder_write_read()
        } else {
            self
        };
        MmuView { binder_seq: v.binder_seq.wrapping_add(1), ..v }
    }

    pub open spec fn fb_store(self, off: u32, val: u32) -> MmuView {
        if off == 0x0C {
            MmuView { goldfish_fb_config: FbConfig { enabled: val != 0, ..self.goldfish_fb_config }, ..self }
        } else if off == 0x14 {
            MmuView { goldfish_fb_config: FbConfig { width: val, ..self.goldfish_fb_config }, ..self }
        } else if off == 0x18 {
            MmuView { goldfish_fb_config: FbConfig { height: val, ..self.goldfish_fb_config }, ..self }
        } else {
            self
        }
    }

    pub open spec fn mmc_store(self, off: u32, val: u32) -> MmuView {
        if off == MMC_REG_CMD {
            MmuView { mmc_cmd: val, ..self }.mmc_command()
        } else if off == MMC_REG_ARG {
            MmuView { mmc_arg: val, ..self }
        } else {
            self
        }
    }

    pub open spec fn pipe_store(self, off: u32, val: u32) -> MmuView {
        if off == PIPE_REG_COMMAND {
            MmuView { pipe_cmd: val, ..self }.pipe_command()
        } else if off == PIPE_REG_CHANNEL {
            MmuView { pipe_channel: val, ..self }
        } else if off == PIPE_REG_SIZE {
            MmuView { pipe_size: val, ..self }
        } else if off == PIPE_REG_ADDRESS {
            MmuView { pipe_address: val, ..self }
        } else if off == PIPE_REG_WAKES {
            MmuView { pipe_wakes: val, ..self }
        } else {
            self
        }
    }

    pub open spec fn rtc_store(self, off: u32, val: u32) -> MmuView {
        if off == 0 {
            MmuView { goldfish_rtc: (self.goldfish_rtc & 0xFFFF_FFFF_0000_0000) | (val as u64), ..self }
        } else if off == 4 {
            MmuView { goldfish_rtc: (self.goldfish_rtc & 0xFFFF_FFFF) | ((val as u64) << 32), ..self }
        } else {
            self
        }
    }

    /// Logger register store; setting bit 0 of the control register writes
    /// one entry and clears the bit again.
    pub open spec fn logger_store(self, off: u32, val: u32) -> MmuView {
        if off == LOG_REG_PRIO {
            MmuView { log_prio: val, ..self }
        } else if off == LOG_REG_TAG {
            MmuView { log_tag_ptr: val, ..self }
        } else if off == LOG_REG_MSG {
            MmuView { log_msg_ptr: val, ..self }
        } else if off == LOG_REG_CTRL {
            if val & 1 != 0 {
                let v = MmuView { log_ctrl: val, ..self }.log_write();
                MmuView { log_ctrl: v.log_ctrl & !1u32, ..v }
            } else {
                MmuView { log_ctrl: val, ..self }
            }
        } else {
            self
        }
    }

    pub open spec fn ashmem_store(self, off: u32, val: u32) -> MmuView {
        if off == ASHMEM_REG_CMD {
            MmuView { ashmem_cmd: val, ..self }.ashmem_command()
        } else if off == ASHMEM_REG_SIZE {
            MmuView { ashmem_size: val, ..self }
        } else if off == ASHMEM_REG_PROT {
            MmuView { ashmem_prot: val, ..self }
        } else if off == ASHMEM_REG_PINNED {
            MmuView { ashmem_pinned: val, ..self }
        } else if off == ASHMEM_REG_DATA_PTR {
            MmuView { ashmem_data_ptr: val, ..self }
        } else {
            self
        }
    }

    /// A 32-bit store into an Android device window.
    pub open spec fn android_store32(self, addr: u32, val: u32) -> MmuView {
        if GOLDFISH_FB_BASE <= addr && addr < GOLDFISH_FB_BASE + 0x100 {
            self.fb_store((addr - GOLDFISH_FB_BASE) as u32, val)
        } else if in_mmc(addr) {
            self.mmc_store((addr - MMC_BASE) as u32, val)
        } else if in_pipe(addr) {
            self.pipe_store((addr - GOLDFISH_PIPE_BASE) as u32, val)
        } else if in_rtc(addr) {
            self.rtc_store((addr - GOLDFISH_RTC_BASE) as u32, val)
        } else if in_logger(addr) {
            self.logger_store((addr - ANDROID_LOG_BASE) as u32, val)
        } else if in_ashmem(addr) {
            self.ashmem_store((addr - ASHMEM_BASE) as u32, val)
        } else if in_binder(addr) {
            self.binder_store((addr - BINDER_BASE) as u32, val)
        } else {
            self
        }
    }

    /// Whether `b` equals `a` except for the MMC transfer state, the only
    /// state a load can change.
    pub open spec fn same_but_mmc(a: MmuView, b: MmuView) -> bool {
        b == (MmuView {
            mmc_current_sector: b.mmc_current_sector,
            mmc_sector_buffer: b.mmc_sector_buffer,
            mmc_buffer_offset: b.mmc_buffer_offset,
            mmc_multi_active: b.mmc_multi_active,
            ..a
        })
    }

    /// A 32-bit store to a device register.
    #[verifier::opaque]
    pub open spec fn periph_store32(self, addr: u32, val: u32) -> MmuView {
        if addr == VPB_UART0_BASE || addr == UART_TX {
            self.uart_byte((val & 0xFF) as u8)
        } else if VPB_VIC_BASE <= addr && addr < VPB_VIC_BASE + 0x1000 {
            if addr - VPB_VIC_BASE == 0x10 {
                MmuView { vic_int_enable: self.vic_int_enable | val, ..self }.vic_updated()
            } else if addr - VPB_VIC_BASE == 0x14 {
                MmuView { vic_int_enable: self.vic_int_enable & !val, ..self }.vic_updated()
            } else {
                self
            }
        } else if VPB_TIMER_BASE <= addr && addr < VPB_TIMER_BASE + 0x20 {
            let off = addr - VPB_TIMER_BASE;
            if off == 0 {
                MmuView { timer1_load: val, timer1_value: val, ..self }
            } else if off == 4 {
                MmuView { timer1_value: val, ..self }
            } else if off == 8 {
                MmuView { timer1_ctrl: val, ..self }
            } else if off == 0x0C {
                MmuView { vic_int_status: self.vic_int_status & !0x10u32, ..self }.vic_updated()
            } else {
                self
            }
        } else if addr == AUDIO_CTRL {
            MmuView { audio_ctrl: val, ..self }
        } else if addr == AUDIO_FREQ {
            MmuView { audio_freq: val, ..self }
        } else if in_android_periph(addr) {
            self.android_store32(addr, val)
        } else {
            self
        }
    }

    /// A 32-bit store.
    #[verifier::opaque]
    pub open spec fn store32(self, addr: u32, val: u32) -> MmuView {
        if in_vram(addr) && in_vram(addr.wrapping_add(3)) {
            let o = addr - VRAM_BASE;
            MmuView {
                vram: self.vram.update(o, byte_of(val, 0)).update(o + 1, byte_of(val, 1)).update(
                    o + 2,
                    byte_of(val, 2),
                ).update(o + 3, byte_of(val, 3)),
                ..self
            }
        } else if in_periph(addr) {
            self.periph_store32(addr, val)
        } else {
            self.store_word_bytes(addr, val)
        }
    }

    /// RAM after copying `data` to `addr` (ignored when it does not fit).
    pub open spec fn load_bytes_spec(self, addr: u32, data: Seq<u8>) -> MmuView {
        if (addr as int) + data.len() <= self.ram.len() {
            MmuView {
                ram: self.ram.subrange(0, addr as int) + data + self.ram.subrange(
                    addr as int + data.len(),
                    self.ram.len() as int,
                ),
                ..self
            }
        } else {
            self
        }
    }
}

impl Mmu {
    /// The invariant every operation keeps (see [`MmuView::wf`]).
    pub open spec fn wf(&self) -> bool {
        self@.wf()
    }

    /// Creates a bus with `size` bytes of zeroed RAM and black VRAM.
    pub fn new(size: usize) -> (r: Self)
        ensures
            r@ == MmuView::initial(size),
            r.wf(),
    {
        let ram: Vec<u8> = vec![0u8; size];
        proof {
            assert forall|i: int| 0 <= i < size implies #[trigger] ram@[i] == 0u8 by {
                assert(vstd::pervasive::cloned(0u8, ram@[i]));
            }
            assert(ram@ =~= Seq::new(size as nat, |i: int| 0u8));
        }
        let mut vram: Vec<u8> = Vec::with_capacity(VRAM_SIZE);
        let mut i: usize = 0;
        while i < VRAM_SIZE
            invariant
                i <= VRAM_SIZE,
                i % 4 == 0,
                vram@.len() == i,
                forall|j: int| 0 <= j < i ==> #[trigger] vram@[j] == (if j % 4 == 3 { 255u8 } else { 0u8 }),
            decreases VRAM_SIZE - i,
        {
            vram.push(0);
            vram.push(0);
            vram.push(0);
            vram.push(255);
            i = i + 4;
        }
        assert(vram@ =~= vram_reset());
        let mut sector: Vec<u8> = Vec::with_capacity(MMC_SECTOR_BYTES);
        let mut k: usize = 0;
        while k < MMC_SECTOR_BYTES
            invariant
                k <= MMC_SECTOR_BYTES,
                sector@.len() == k,
                forall|j: int| 0 <= j < k ==> #[trigger] sector@[j] == 0u8,
            decreases MMC_SECTOR_BYTES - k,
        {
            sector.push(0);
            k = k + 1;
        }
        assert(sector@ =~= Seq::new(512, |i: int| 0u8));
        let r = Mmu {
            ram,
            vram,
            uart_tx_buffer: String::new(),
            key_state: 0,
            touch_down: false,
            touch_x: 0,
            touch_y: 0,
            sys_timer: 0,
            audio_ctrl: 0,
            audio_freq: 0,
            timer1_load: 0,
            timer1_value: 0,
            timer1_ctrl: 0,
            vic_int_enable: 0,
            vic_int_status: 0,
            irq_pending: false,
            logger_buffer: Vec::new(),
            goldfish_fb_config: FbConfig::default(),
            mmc_card_data: None,
            goldfish_rtc: 0,
            binder_seq: 0,
            binder_write_size: 0,
            binder_write_buf: 0,
            binder_read_size: 0,
            binder_read_buf: 0,
            binder_status: 0,
            binder_tx_count: 0,
            mmc_cmd: 0,
            mmc_arg: 0,
            mmc_resp: 0,
            mmc_status: 0,
            mmc_data: 0,
            mmc_current_sector: 0,
            mmc_sector_buffer: sector,
            mmc_buffer_offset: 0,
            mmc_multi_active: false,
            pipe_cmd: 0,
            pipe_status: 0,
            pipe_channel: 0,
            pipe_size: 0,
            pipe_address: 0,
            pipe_wakes: 0,
            pipe_channels: Vec::new(),
            pipe_rx: Vec::new(),
            logger_read_pos: 0,
            logger_max_entries: 1024,
            log_prio: 0,
            log_tag_ptr: 0,
            log_msg_ptr: 0,
            log_ctrl: 0,
            ashmem_cmd: 0,
            ashmem_size: 0,
            ashmem_prot: 0,
            ashmem_pinned: 0,
            ashmem_data_ptr: 0,
            ashmem_status: 0,
            ashmem_regions: Vec::new(),
        };
        assert(r@.logger_buffer =~= Seq::<LogEntryView>::empty());
        assert(r@.pipe_channels =~= Seq::<Seq<char>>::empty());
        assert(r@.ashmem_regions =~= Seq::<RegionView>::empty());
        r
    }

    /// Creates a bus with the default 16 MB of RAM.
    pub fn default() -> (r: Self)
        ensures
            r@ == MmuView::initial(DEFAULT_RAM_SIZE),
            r.wf(),
    {
        Self::new(DEFAULT_RAM_SIZE)
    }

    /// Total RAM size in bytes.
    pub fn ram_size(&self) -> (r: usize)
        ensures
            r == self@.ram.len(),
    {
        self.ram.len()
    }

    fn is_vram(addr: u32) -> (r: bool)
        ensures
            r == in_vram(addr),
    {
        addr >= VRAM_BASE && addr < VRAM_END
    }

    fn is_uart(addr: u32) -> (r: bool)
        ensures
            r == in_legacy_periph(addr),
    {
        addr >= UART_BASE && addr < PERIPH_END
    }

    fn is_vpb_periph(addr: u32) -> (r: bool)
        ensures
            r == in_vpb_periph(addr),
    {
        addr >= VPB_PERIPH_START && addr <= VPB_PERIPH_END
    }

    fn is_periph(addr: u32) -> (r: bool)
        ensures
            r == in_periph(addr),
    {
        Self::is_uart(addr) || Self::is_vpb_periph(addr) || Self::is_android_periph(addr)
    }

    fn is_android_periph(addr: u32) -> (r: bool)
        ensures
            r == in_android_periph(addr),
    {
        (addr >= GOLDFISH_FB_BASE && addr < GOLDFISH_FB_BASE + GOLDFISH_FB_SIZE)
            || (addr >= GOLDFISH_PIPE_BASE && addr < GOLDFISH_PIPE_BASE + GOLDFISH_PIPE_SIZE)
            || (addr >= BINDER_BASE && addr < BINDER_BASE + BINDER_SIZE)
            || (addr >= MMC_BASE && addr < MMC_BASE + MMC_SIZE)
            || (addr >= GOLDFISH_RTC_BASE && addr < GOLDFISH_RTC_BASE + 0x1000)
            || (addr >= ANDROID_LOG_BASE && addr < ANDROID_LOG_BASE + ANDROID_LOG_SIZE)
            || (addr >= ASHMEM_BASE && addr < ASHMEM_BASE + ASHMEM_SIZE)
    }

    /// A byte written to the legacy UART TX register.
    fn uart_write_byte(&mut self, val: u8)
        ensures
            final(self)@ == old(self)@.uart_byte(val),
    {
        if val == 10 {
            self.uart_tx_buffer = String::new();
        } else {
            push_char(&mut self.uart_tx_buffer, char_of_byte(val));
        }
    }

    /// A byte written to the PL011 data register (same line discipline).
    fn vpb_uart_write_byte(&mut self, val: u8)
        ensures
            final(self)@ == old(self)@.uart_byte(val),
    {
        if val == 10 {
            self.uart_tx_buffer = String::new();
        } else {
            push_char(&mut self.uart_tx_buffer, char_of_byte(val));
        }
    }

    /// The UART line buffer (characters since the last newline).
    pub fn uart_buffer(&self) -> (r: &str)
        ensures
            r@ == self@.uart_tx_buffer,
    {
        self.uart_tx_buffer.as_str()
    }

    pub fn clear_uart_buffer(&mut self)
        ensures
            final(self)@ == (MmuView { uart_tx_buffer: Seq::empty(), ..old(self)@ }),
    {
        self.uart_tx_buffer = String::new();
    }

    /// Recomputes the VIC IRQ line from active and enabled interrupts.
    pub fn update_vic(&mut self)
        ensures
            final(self)@ == old(self)@.vic_updated(),
    {
        self.irq_pending = (self.vic_int_status & self.vic_int_enable) != 0;
    }

    pub fn vram_len(&self) -> (r: usize)
        ensures
            r == self@.vram.len(),
    {
        self.vram.len()
    }

    /// Clears VRAM to opaque black.
    pub fn clear_vram(&mut self)
        requires
            old(self).wf(),
        ensures
            final(self)@ == (MmuView { vram: vram_reset(), ..old(self)@ }),
            final(self).wf(),
    {
        let mut i: usize = 0;
        while i < VRAM_SIZE
            invariant
                self.vram@.len() == VRAM_SIZE,
                i <= VRAM_SIZE,
                i % 4 == 0,
                forall|j: int| 0 <= j < i ==> #[trigger] self.vram@[j] == (if j % 4 == 3 { 255u8 } else { 0u8 }),
                self@ == (MmuView { vram: self.vram@, ..old(self)@ }),
            decreases VRAM_SIZE - i,
        {
            self.vram.set(i, 0);
            self.vram.set(i + 1, 0);
            self.vram.set(i + 2, 0);
            self.vram.set(i + 3, 255);
            i = i + 4;
        }
        assert(self.vram@ =~= vram_reset());
    }
}

impl Mmu {
    // ── SD/MMC ────────────────────────────────────────────────────────

    /// Executes the command just written to the MMC command register.
    fn execute_mmc_command(&mut self)
        requires
            old(self).wf(),
        ensures
            final(self)@ == old(self)@.mmc_command(),
            final(self).wf(),
    {
        let cmd = self.mmc_cmd & 0x3F;
        let arg = self.mmc_arg;
        if cmd == MMC_CMD_STOP_TRANSMISSION {
            self.mmc_multi_active = false;
            self.mmc_resp = 0;
        } else if cmd == MMC_CMD_READ_SINGLE {
            self.mmc_multi_active = false;
            self.load_mmc_sector_cmd(arg);
        } else if cmd == MMC_CMD_READ_MULTIPLE {
            self.mmc_multi_active = true;
            self.load_mmc_sector_cmd(arg);
        } else if cmd == MMC_CMD_SEND_STATUS {
            self.mmc_resp = if self.mmc_card_data.is_some() { 1 } else { 0 };
        } else if cmd == MMC_CMD_APP_CMD {
            self.mmc_resp = 0;
        } else {
            self.mmc_resp = MMC_RESP_ERROR;
        }
    }

    fn sector_in_card(&self, arg: u32) -> (r: bool)
        ensures
            r == self@.sector_in_card(arg),
    {
        match &self.mmc_card_data {
            Some(d) => (arg as u64) * 512 + 512 <= d.len() as u64,
            None => false,
        }
    }

    /// Loads sector `arg` of the mounted image into the sector buffer.
    fn load_mmc_sector(&mut self, arg: u32)
        requires
            old(self).wf(),
        ensures
            final(self)@ == old(self)@.load_sector(arg),
            final(self).wf(),
    {
        let in_card = self.sector_in_card(arg);
        self.mmc_current_sector = arg;
        self.mmc_buffer_offset = 0;
        let ghost v0 = self@;
        if in_card {
            let ghost card = self@.mmc_card_data.unwrap();
            proof {
                assert(card.len() <= usize::MAX) by {
                    let d = self.mmc_card_data.unwrap();
                    assert(card.len() == d.len());
                }
            }
            let base = (arg as usize) * 512;
            let mut i: usize = 0;
            while i < MMC_SECTOR_BYTES
                invariant
                    i <= MMC_SECTOR_BYTES,
                    self.mmc_sector_buffer@.len() == MMC_SECTOR_BYTES,
                    self@.mmc_card_data == Some(card),
                    base == (arg as int) * 512,
                    base + 512 <= card.len(),
                    forall|j: int| 0 <= j < i ==> #[trigger] self.mmc_sector_buffer@[j] == card[base + j],
                    self@ == (MmuView { mmc_sector_buffer: self.mmc_sector_buffer@, ..v0 }),
                decreases MMC_SECTOR_BYTES - i,
            {
                let b = match &self.mmc_card_data {
                    Some(d) => d[base + i],
                    None => 0,
                };
                self.mmc_sector_buffer.set(i, b);
                i = i + 1;
            }
            assert(self.mmc_sector_buffer@ =~= card.subrange(base as int, base + 512));
        } else {
            let mut i: usize = 0;
            while i < MMC_SECTOR_BYTES
                invariant
                    i <= MMC_SECTOR_BYTES,
                    self.mmc_sector_buffer@.len() == MMC_SECTOR_BYTES,
                    forall|j: int| 0 <= j < i ==> #[trigger] self.mmc_sector_buffer@[j] == 0u8,
                    self@ == (MmuView { mmc_sector_buffer: self.mmc_sector_buffer@, ..v0 }),
                decreases MMC_SECTOR_BYTES - i,
            {
                self.mmc_sector_buffer.set(i, 0);
                i = i + 1;
            }
            assert(self.mmc_sector_buffer@ =~= Seq::new(512, |i: int| 0u8));
            self.mmc_multi_active = false;
        }
    }

    /// A read command: loads the sector and sets the response register.
    fn load_mmc_sector_cmd(&mut self, arg: u32)
        requires
            old(self).wf(),
        ensures
            final(self)@ == old(self)@.load_sector_cmd(arg),
            final(self).wf(),
    {
        let in_card = self.sector_in_card(arg);
        self.load_mmc_sector(arg);
        if in_card {
            self.mmc_resp = 0;
        } else {
            self.mmc_resp = MMC_RESP_ERROR;
            self.mmc_multi_active = false;
        }
    }

    fn sector_byte(&self, i: usize) -> (r: u8)
        ensures
            r == self@.sector_byte(i as int),
    {
        if i < self.mmc_sector_buffer.len() { self.mmc_sector_buffer[i] } else { 0 }
    }

    /// Reads one word from the MMC data port, advancing the buffer offset;
    /// during CMD18 the next sector is loaded once the buffer is drained.
    fn read_mmc_data_word(&mut self) -> (r: u32)
        requires
            old(self).wf(),
        ensures
            r == old(self)@.mmc_data_word(),
            final(self)@ == old(self)@.after_mmc_data_read(),
            final(self).wf(),
    {
        let offset = self.mmc_buffer_offset;
        if offset >= 512 {
            return 0;
        }
        let b0 = self.sector_byte(offset) as u32;
        let b1 = self.sector_byte(offset + 1) as u32;
        let b2 = self.sector_byte(offset + 2) as u32;
        let b3 = self.sector_byte(offset + 3) as u32;
        let word = b0 | (b1 << 8) | (b2 << 16) | (b3 << 24);
        self.mmc_buffer_offset = offset + 4;
        if self.mmc_buffer_offset >= 512 && self.mmc_multi_active {
            let next = self.mmc_current_sector.wrapping_add(1);
            self.load_mmc_sector(next);
        }
        word
    }

    // ── Register reads ────────────────────────────────────────────────

    /// Reads a device register as a 32-bit value.
    fn read_periph_u32(&mut self, addr: u32) -> (r: u32)
        requires
            old(self).wf(),
        ensures
            r == old(self)@.periph_read(addr).0,
            final(self)@ == old(self)@.periph_read(addr).1,
            final(self).wf(),
    {
        reveal(MmuView::periph_read);
        let android = Self::is_android_periph(addr);
        if android && addr >= GOLDFISH_FB_BASE && addr < GOLDFISH_FB_BASE + 0x100 {
            let off = addr - GOLDFISH_FB_BASE;
            return if off == 0x00 {
                self.goldfish_fb_config.width
            } else if off == 0x04 {
                self.goldfish_fb_config.height
            } else if off == 0x08 {
                self.goldfish_fb_config.format
            } else if off == 0x0C {
                if self.goldfish_fb_config.enabled { 1 } else { 0 }
            } else if off == 0x10 {
                VRAM_BASE
            } else {
                0
            };
        }
        if android && addr >= MMC_BASE && addr < MMC_BASE + MMC_SIZE {
            let off = addr - MMC_BASE;
            return if off == MMC_REG_CMD {
                self.mmc_cmd
            } else if off == MMC_REG_ARG {
                self.mmc_arg
            } else if off == MMC_REG_RESP {
                self.mmc_resp
            } else if off == MMC_REG_STATUS {
                let present: u32 = if self.mmc_card_data.is_some() { 1 } else { 0 };
                let avail: u32 = if self.mmc_buffer_offset < 512 { 1 } else { 0 };
                let multi: u32 = if self.mmc_multi_active { 1 } else { 0 };
                present | (present << 1) | (avail << 2) | (multi << 3)
            } else if off == MMC_REG_DATA {
                self.read_mmc_data_word()
            } else {
                0
            };
        }
        if android && addr >= GOLDFISH_RTC_BASE && addr < GOLDFISH_RTC_BASE + 0x1000 {
            let off = addr - GOLDFISH_RTC_BASE;
            return if off == 0 {
                (self.goldfish_rtc & 0xFFFF_FFFF) as u32
            } else if off == 4 {
                (self.goldfish_rtc >> 32) as u32
            } else {
                0
            };
        }
        if android && addr >= BINDER_BASE && addr < BINDER_BASE + 0x100 {
            let off = addr - BINDER_BASE;
            return if off == BINDER_REG_VERSION {
                BINDER_VERSION
            } else if off == BINDER_REG_WRITE_SIZE {
                self.binder_write_size
            } else if off == BINDER_REG_WRITE_BUF {
                self.binder_write_buf
            } else if off == BINDER_REG_READ_SIZE {
                self.binder_read_size
            } else if off == BINDER_REG_READ_BUF {
                self.binder_read_buf
            } else if off == BINDER_REG_STATUS {
                self.binder_status
            } else if off == BINDER_REG_TX_COUNT {
                self.binder_tx_count
            } else {
                0
            };
        }
        if android && addr >= GOLDFISH_PIPE_BASE && addr < GOLDFISH_PIPE_BASE + GOLDFISH_PIPE_SIZE {
            let off = addr - GOLDFISH_PIPE_BASE;
            return if off == PIPE_REG_COMMAND {
                self.pipe_cmd
            } else if off == PIPE_REG_STATUS {
                self.pipe_status as u32
            } else if off == PIPE_REG_CHANNEL {
                self.pipe_channel
            } else if off == PIPE_REG_SIZE {
                self.pipe_size
            } else if off == PIPE_REG_ADDRESS {
                self.pipe_address
            } else if off == PIPE_REG_WAKES {
                self.pipe_wakes
            } else if off == PIPE_REG_VERSION {
                1
            } else {
                0
            };
        }
        if android && addr >= ANDROID_LOG_BASE && addr < ANDROID_LOG_BASE + ANDROID_LOG_SIZE {
            let off = addr - ANDROID_LOG_BASE;
            return if off == LOG_REG_PRIO {
                self.log_prio
            } else if off == LOG_REG_TAG {
                self.log_tag_ptr
            } else if off == LOG_REG_MSG {
                self.log_msg_ptr
            } else if off == LOG_REG_CTRL {
                self.log_ctrl
            } else if off == LOG_REG_STATUS {
                if self.logger_buffer.len() >= self.logger_max_entries { 3 } else { 1 }
            } else {
                0
            };
        }
        if android && addr >= ASHMEM_BASE && addr < ASHMEM_BASE + ASHMEM_SIZE {
            let off = addr - ASHMEM_BASE;
            return if off == ASHMEM_REG_CMD {
                self.ashmem_cmd
            } else if off == ASHMEM_REG_SIZE {
                self.ashmem_size
            } else if off == ASHMEM_REG_PROT {
                self.ashmem_prot
            } else if off == ASHMEM_REG_PINNED {
                self.ashmem_pinned
            } else if off == ASHMEM_REG_DATA_PTR {
                self.ashmem_data_ptr
            } else if off == ASHMEM_REG_STATUS {
                self.ashmem_status
            } else {
                0
            };
        }
        if Self::is_vpb_periph(addr) {
            if addr >= VPB_VIC_BASE && addr < VPB_VIC_BASE + 0x1000 {
                let off = addr - VPB_VIC_BASE;
                return if off == 0 {
                    self.vic_int_status
                } else if off == 0x10 {
                    self.vic_int_enable
                } else {
                    0
                };
            }
            if addr >= VPB_TIMER_BASE && addr < VPB_TIMER_BASE + 0x20 {
                let off = addr - VPB_TIMER_BASE;
                return if off == 0 {
                    self.timer1_load
                } else if off == 4 {
                    self.timer1_value
                } else if off == 8 {
                    self.timer1_ctrl
                } else {
                    0
                };
            }
            // UARTFR, timers 2..4 and everything else in the window read zero:
            // the PL011 transmitter is never full.
            return 0;
        }
        if addr == INPUT_KEY {
            self.key_state
        } else if addr == INPUT_TOUCH {
            if self.touch_down { 1 } else { 0 }
        } else if addr == INPUT_COORD {
            ((self.touch_y as u32) << 16) | (self.touch_x as u32)
        } else if addr == SYS_TIMER {
            self.sys_timer
        } else if addr == AUDIO_CTRL {
            self.audio_ctrl
        } else if addr == AUDIO_FREQ {
            self.audio_freq
        } else {
            0
        }
    }

    // ── Loads (little-endian) ─────────────────────────────────────────

    /// Reads one byte. Device registers answer with the addressed byte of
    /// their 32-bit value; unmapped addresses read as zero.
    pub fn read_u8(&mut self, addr: u32) -> (r: u8)
        requires
            old(self).wf(),
        ensures
            r == old(self)@.load8(addr).0,
            final(self)@ == old(self)@.load8(addr).1,
            final(self).wf(),
    {
        reveal(MmuView::load8);
        if Self::is_vram(addr) {
            let offset = (addr - VRAM_BASE) as usize;
            return self.vram[offset];
        }
        if Self::is_periph(addr) {
            let aligned = addr & !3u32;
            assert((addr & 3) <= 3) by (bit_vector);
            let shift = (addr & 3) * 8;
            let word = self.read_periph_u32(aligned);
            return ((word >> shift) & 0xFF) as u8;
        }
        let a = addr as usize;
        if a < self.ram.len() {
            self.ram[a]
        } else {
            0
        }
    }

    /// Reads a little-endian halfword.
    pub fn read_u16(&mut self, addr: u32) -> (r: u16)
        requires
            old(self).wf(),
        ensures
            r == old(self)@.load16(addr).0,
            final(self)@ == old(self)@.load16(addr).1,
            final(self).wf(),
    {
        reveal(MmuView::load16);
        let lo = self.read_u8(addr) as u16;
        let hi = self.read_u8(addr.wrapping_add(1)) as u16;
        lo | (hi << 8)
    }

    /// Reads a little-endian word.
    pub fn read_u32(&mut self, addr: u32) -> (r: u32)
        requires
            old(self).wf(),
        ensures
            r == old(self)@.load32(addr).0,
            final(self)@ == old(self)@.load32(addr).1,
            final(self).wf(),
    {
        reveal(MmuView::load32);
        if Self::is_vram(addr) && Self::is_vram(addr.wrapping_add(3)) {
            let offset = (addr - VRAM_BASE) as usize;
            let b0 = self.vram[offset] as u32;
            let b1 = self.vram[offset + 1] as u32;
            let b2 = self.vram[offset + 2] as u32;
            let b3 = self.vram[offset + 3] as u32;
            return b0 | (b1 << 8) | (b2 << 16) | (b3 << 24);
        }
        if Self::is_periph(addr) {
            return self.read_periph_u32(addr);
        }
        let b0 = self.read_u8(addr) as u32;
        let b1 = self.read_u8(addr.wrapping_add(1)) as u32;
        let b2 = self.read_u8(addr.wrapping_add(2)) as u32;
        let b3 = self.read_u8(addr.wrapping_add(3)) as u32;
        b0 | (b1 << 8) | (b2 << 16) | (b3 << 24)
    }
}

impl Mmu {
    // ── Stores (little-endian) ────────────────────────────────────────

    /// Writes one byte. VRAM, the UARTs and the audio registers take the
    /// byte; other device registers ignore it; writes past RAM are dropped.
    pub fn write_u8(&mut self, addr: u32, val: u8)
        requires
            old(self).wf(),
        ensures
            final(self)@ == old(self)@.store8(addr, val),
            final(self).wf(),
    {
        reveal(MmuView::store8);
        if Self::is_vram(addr) {
            let offset = (addr - VRAM_BASE) as usize;
            self.vram.set(offset, val);
            return;
        }
        if addr == VPB_UART0_BASE {
            self.vpb_uart_write_byte(val);
            return;
        }
        if addr == UART_TX {
            self.uart_write_byte(val);
            return;
        }
        if addr == AUDIO_CTRL {
            self.audio_ctrl = (self.audio_ctrl & 0xFFFF_FF00) | (val as u32);
            return;
        }
        if addr == AUDIO_FREQ {
            self.audio_freq = (self.audio_freq & 0xFFFF_FF00) | (val as u32);
            return;
        }
        if Self::is_periph(addr) {
            return;
        }
        let a = addr as usize;
        if a < self.ram.len() {
            self.ram.set(a, val);
        }
    }

    /// Writes a little-endian halfword.
    pub fn write_u16(&mut self, addr: u32, val: u16)
        requires
            old(self).wf(),
        ensures
            final(self)@ == old(self)@.store16(addr, val),
            final(self).wf(),
    {
        reveal(MmuView::store16);
        if Self::is_periph(addr) {
            if addr == VPB_UART0_BASE {
                self.vpb_uart_write_byte((val & 0xFF) as u8);
                return;
            }
            if addr == UART_TX {
                self.uart_write_byte((val & 0xFF) as u8);
                return;
            }
            if addr == AUDIO_CTRL {
                self.audio_ctrl = val as u32;
                return;
            }
            if addr == AUDIO_FREQ {
                self.audio_freq = val as u32;
                return;
            }
            return;
        }
        self.write_u8(addr, (val & 0xFF) as u8);
        self.write_u8(addr.wrapping_add(1), ((val >> 8) & 0xFF) as u8);
    }

    /// Four byte stores of a little-endian word, without device commands.
    fn write_word_bytes(&mut self, addr: u32, val: u32)
        requires
            old(self).wf(),
        ensures
            final(self)@ == old(self)@.store_word_bytes(addr, val),
            final(self).wf(),
    {
        assert(byte_of(val, 0) == (val & 0xFF) as u8) by (bit_vector);
        assert(byte_of(val, 1) == ((val >> 8) & 0xFF) as u8) by (bit_vector);
        assert(byte_of(val, 2) == ((val >> 16) & 0xFF) as u8) by (bit_vector);
        assert(byte_of(val, 3) == ((val >> 24) & 0xFF) as u8) by (bit_vector);
        self.write_u8(addr, (val & 0xFF) as u8);
        self.write_u8(addr.wrapping_add(1), ((val >> 8) & 0xFF) as u8);
        self.write_u8(addr.wrapping_add(2), ((val >> 16) & 0xFF) as u8);
        self.write_u8(addr.wrapping_add(3), ((val >> 24) & 0xFF) as u8);
    }

    /// Writes a little-endian word; device registers see the whole word and
    /// command registers run their command.
    pub fn write_u32(&mut self, addr: u32, val: u32)
        requires
            old(self).wf(),
        ensures
            final(self)@ == old(self)@.store32(addr, val),
            final(self).wf(),
    {
        reveal(MmuView::store32);
        if Self::is_vram(addr) && Self::is_vram(addr.wrapping_add(3)) {
            let offset = (addr - VRAM_BASE) as usize;
            assert(byte_of(val, 0) == (val & 0xFF) as u8) by (bit_vector);
            assert(byte_of(val, 1) == ((val >> 8) & 0xFF) as u8) by (bit_vector);
            assert(byte_of(val, 2) == ((val >> 16) & 0xFF) as u8) by (bit_vector);
            assert(byte_of(val, 3) == ((val >> 24) & 0xFF) as u8) by (bit_vector);
            self.vram.set(offset, (val & 0xFF) as u8);
            self.vram.set(offset + 1, ((val >> 8) & 0xFF) as u8);
            self.vram.set(offset + 2, ((val >> 16) & 0xFF) as u8);
            self.vram.set(offset + 3, ((val >> 24) & 0xFF) as u8);
            return;
        }
        if Self::is_periph(addr) {
            self.write_periph_u32(addr, val);
            return;
        }
        self.write_word_bytes(addr, val);
    }

    /// A 32-bit store to a device register.
    fn write_periph_u32(&mut self, addr: u32, val: u32)
        requires
            old(self).wf(),
        ensures
            final(self)@ == old(self)@.periph_store32(addr, val),
            final(self).wf(),
    {
        reveal(MmuView::periph_store32);
        if addr == VPB_UART0_BASE {
            self.vpb_uart_write_byte((val & 0xFF) as u8);
            return;
        }
        if addr == UART_TX {
            self.uart_write_byte((val & 0xFF) as u8);
            return;
        }
        if addr >= VPB_VIC_BASE && addr < VPB_VIC_BASE + 0x1000 {
            let off = addr - VPB_VIC_BASE;
            if off == 0x10 {
                self.vic_int_enable = self.vic_int_enable | val;
                self.update_vic();
            } else if off == 0x14 {
                self.vic_int_enable = self.vic_int_enable & !val;
                self.update_vic();
            }
            return;
        }
        if addr >= VPB_TIMER_BASE && addr < VPB_TIMER_BASE + 0x20 {
            let off = addr - VPB_TIMER_BASE;
            if off == 0 {
                self.timer1_load = val;
                self.timer1_value = val;
            } else if off == 4 {
                self.timer1_value = val;
            } else if off == 8 {
                self.timer1_ctrl = val;
            } else if off == 0x0C {
                // Timer1IntClr: drop VIC line 4.
                self.vic_int_status = self.vic_int_status & !0x10u32;
                self.update_vic();
            }
            return;
        }
        if addr == AUDIO_CTRL {
            self.audio_ctrl = val;
            return;
        }
        if addr == AUDIO_FREQ {
            self.audio_freq = val;
            return;
        }
        if Self::is_android_periph(addr) {
            self.write_android_u32(addr, val);
        }
    }

    /// A 32-bit store into one of the Android device windows.
    fn write_android_u32(&mut self, addr: u32, val: u32)
        requires
            old(self).wf(),
        ensures
            final(self)@ == old(self)@.android_store32(addr, val),
            final(self).wf(),
    {
        if addr >= GOLDFISH_FB_BASE && addr < GOLDFISH_FB_BASE + 0x100 {
            let off = addr - GOLDFISH_FB_BASE;
            if off == 0x0C {
                self.goldfish_fb_config.enabled = val != 0;
            } else if off == 0x14 {
                self.goldfish_fb_config.width = val;
            } else if off == 0x18 {
                self.goldfish_fb_config.height = val;
            }
        } else if addr >= MMC_BASE && addr < MMC_BASE + MMC_SIZE {
            self.write_mmc_reg(addr - MMC_BASE, val);
        } else if addr >= GOLDFISH_PIPE_BASE && addr < GOLDFISH_PIPE_BASE + GOLDFISH_PIPE_SIZE {
            self.write_pipe_reg(addr - GOLDFISH_PIPE_BASE, val);
        } else if addr >= GOLDFISH_RTC_BASE && addr < GOLDFISH_RTC_BASE + 0x1000 {
            let off = addr - GOLDFISH_RTC_BASE;
            if off == 0 {
                self.goldfish_rtc = (self.goldfish_rtc & 0xFFFF_FFFF_0000_0000) | (val as u64);
            } else if off == 4 {
                self.goldfish_rtc = (self.goldfish_rtc & 0xFFFF_FFFF) | ((val as u64) << 32);
            }
        } else if addr >= ANDROID_LOG_BASE && addr < ANDROID_LOG_BASE + ANDROID_LOG_SIZE {
            self.write_logger_reg(addr - ANDROID_LOG_BASE, val);
        } else if addr >= ASHMEM_BASE && addr < ASHMEM_BASE + ASHMEM_SIZE {
            self.write_ashmem_reg(addr - ASHMEM_BASE, val);
        } else if addr >= BINDER_BASE && addr < BINDER_BASE + BINDER_SIZE {
            self.write_binder_reg(addr - BINDER_BASE, val);
        }
    }

    fn write_mmc_reg(&mut self, off: u32, val: u32)
        requires
            old(self).wf(),
        ensures
            final(self)@ == old(self)@.mmc_store(off, val),
            final(self).wf(),
    {
        if off == MMC_REG_CMD {
            self.mmc_cmd = val;
            self.execute_mmc_command();
        } else if off == MMC_REG_ARG {
            self.mmc_arg = val;
        }
    }

    fn write_pipe_reg(&mut self, off: u32, val: u32)
        requires
            old(self).wf(),
        ensures
            final(self)@ == old(self)@.pipe_store(off, val),
            final(self).wf(),
    {
        if off == PIPE_REG_COMMAND {
            self.pipe_cmd = val;
            self.execute_pipe_command();
        } else if off == PIPE_REG_CHANNEL {
            self.pipe_channel = val;
        } else if off == PIPE_REG_SIZE {
            self.pipe_size = val;
        } else if off == PIPE_REG_ADDRESS {
            self.pipe_address = val;
        } else if off == PIPE_REG_WAKES {
            self.pipe_wakes = val;
        }
    }

    fn write_logger_reg(&mut self, off: u32, val: u32)
        requires
            old(self).wf(),
        ensures
            final(self)@ == old(self)@.logger_store(off, val),
            final(self).wf(),
    {
        if off == LOG_REG_PRIO {
            self.log_prio = val;
        } else if off == LOG_REG_TAG {
            self.log_tag_ptr = val;
        } else if off == LOG_REG_MSG {
            self.log_msg_ptr = val;
        } else if off == LOG_REG_CTRL {
            self.log_ctrl = val;
            if val & 1 != 0 {
                self.execute_log_write();
                self.log_ctrl = self.log_ctrl & !1u32;
            }
        }
    }

    fn write_ashmem_reg(&mut self, off: u32, val: u32)
        requires
            old(self).wf(),
        ensures
            final(self)@ == old(self)@.ashmem_store(off, val),
            final(self).wf(),
    {
        if off == ASHMEM_REG_CMD {
            self.ashmem_cmd = val;
            self.execute_ashmem_command();
        } else if off == ASHMEM_REG_SIZE {
            self.ashmem_size = val;
        } else if off == ASHMEM_REG_PROT {
            self.ashmem_prot = val;
        } else if off == ASHMEM_REG_PINNED {
            self.ashmem_pinned = val;
        } else if off == ASHMEM_REG_DATA_PTR {
            self.ashmem_data_ptr = val;
        }
    }

    /// A store into the binder window; every store counts in `binder_seq`.
    fn write_binder_reg(&mut self, off: u32, val: u32)
        requires
            old(self).wf(),
        ensures
            final(self)@ == old(self)@.binder_store(off, val),
            final(self).wf(),
    {
        if off == BINDER_REG_WRITE_SIZE {
            self.binder_write_size = val;
        } else if off == BINDER_REG_WRITE_BUF {
            self.binder_write_buf = val;
        } else if off == BINDER_REG_READ_SIZE {
            self.binder_read_size = val;
        } else if off == BINDER_REG_READ_BUF {
            self.binder_read_buf = val;
        } else if off == BINDER_REG_COMMAND && val == BINDER_CMD_WRITE_READ {
            self.binder_write_read();
        }
        self.binder_seq = self.binder_seq.wrapping_add(1);
    }

    /// One binder write/read exchange (see [`MmuView::binder_write_read`]).
    fn binder_write_read(&mut self)
        requires
            old(self).wf(),
        ensures
            final(self)@ == old(self)@.binder_write_read(),
            final(self).wf(),
    {
        self.binder_tx_count = self.binder_tx_count.wrapping_add(self.binder_write_size / 4);
        if self.binder_read_size >= 8 {
            let buf = self.binder_read_buf;
            self.write_word_bytes(buf, BINDER_REPLY_COMPLETE);
            self.write_word_bytes(buf.wrapping_add(4), BINDER_REPLY_NOOP);
            self.binder_status = 0;
        } else {
            self.binder_status = BINDER_STATUS_SHORT_BUFFER;
        }
    }

    // ── Bulk operations ───────────────────────────────────────────────

    /// Copies `data` into RAM at `addr`; nothing is written when it does
    /// not fit.
    pub fn load_bytes(&mut self, addr: u32, data: &[u8])
        requires
            old(self).wf(),
        ensures
            final(self)@ == old(self)@.load_bytes_spec(addr, data@),
            final(self).wf(),
    {
        let start = addr as usize;
        if data.len() <= self.ram.len() && start <= self.ram.len() - data.len() {
            let ghost v0 = self@;
            let mut i: usize = 0;
            while i < data.len()
                invariant
                    i <= data@.len(),
                    start + data@.len() <= v0.ram.len(),
                    self.ram@.len() == v0.ram.len(),
                    self.ram.len() == v0.ram.len(),
                    forall|j: int| 0 <= j < start ==> #[trigger] self.ram@[j] == v0.ram[j],
                    forall|j: int| start + data@.len() <= j < v0.ram.len() ==> #[trigger] self.ram@[j] == v0.ram[j],
                    forall|j: int| start <= j < start + i ==> #[trigger] self.ram@[j] == data@[j - start],
                    forall|j: int| start + i <= j < start + data@.len() ==> #[trigger] self.ram@[j] == v0.ram[j],
                    self@ == (MmuView { ram: self.ram@, ..v0 }),
                decreases data@.len() - i,
            {
                self.ram.set(start + i, data[i]);
                i = i + 1;
            }
            assert(self.ram@ =~= v0.ram.subrange(0, start as int) + data@ + v0.ram.subrange(
                start + data@.len(),
                v0.ram.len() as int,
            ));
        }
    }
}

impl MmuView {
    /// A load changes nothing but the MMC transfer state.
    pub proof fn lemma_load8_frame(self, addr: u32)
        ensures
            MmuView::same_but_mmc(self, self.load8(addr).1),
    {
        reveal(MmuView::load8);
        reveal(MmuView::periph_read);
    }

    pub proof fn lemma_skip_reads_frame(self, base: u32, i: u32, max: u32)
        ensures
            MmuView::same_but_mmc(self, self.skip_reads(base, i, max)),
        decreases max - i,
    {
        if i < max {
            self.lemma_load8_frame(base.wrapping_add(i));
            self.load8(base.wrapping_add(i)).1.lemma_skip_reads_frame(base, (i + 1) as u32, max);
        }
    }

    pub proof fn lemma_read_cstr_frame(self, base: u32, i: u32, max: u32)
        ensures
            MmuView::same_but_mmc(self, self.read_cstr(base, i, max).1),
        decreases max - i,
    {
        if i < max {
            self.lemma_load8_frame(base.wrapping_add(i));
            let (b, v1) = self.load8(base.wrapping_add(i));
            if b != 0 {
                v1.lemma_read_cstr_frame(base, (i + 1) as u32, max);
            }
        }
    }
}

impl Mmu {
    /// Reads a NUL-terminated string of at most `max_len` bytes from RAM,
    /// each byte taken as one character.
    fn read_string_from_ram(&mut self, addr: u32, max_len: u32) -> (r: String)
        requires
            old(self).wf(),
        ensures
            r@ == old(self)@.read_cstr(addr, 0, max_len).0,
            final(self)@ == old(self)@.read_cstr(addr, 0, max_len).1,
            final(self).wf(),
    {
        let mut result = String::new();
        let mut offset: u32 = 0;
        let mut done = false;
        while !done && offset < max_len
            invariant
                self.wf(),
                offset <= max_len,
                done ==> old(self)@.read_cstr(addr, 0, max_len).0 == result@,
                done ==> old(self)@.read_cstr(addr, 0, max_len).1 == self@,
                !done ==> old(self)@.read_cstr(addr, 0, max_len).0 == result@ + self@.read_cstr(addr, offset, max_len).0,
                !done ==> old(self)@.read_cstr(addr, 0, max_len).1 == self@.read_cstr(addr, offset, max_len).1,
            decreases max_len - offset, (if done { 0int } else { 1int }),
        {
            let ghost before = self@;
            let byte = self.read_u8(addr.wrapping_add(offset));
            if byte == 0 {
                assert(result@ + Seq::<char>::empty() =~= result@);
                done = true;
            } else {
                let ghost rest = self@.read_cstr(addr, (offset + 1) as u32, max_len);
                assert(before.read_cstr(addr, offset, max_len).0 == seq![byte_char(byte)] + rest.0);
                push_char(&mut result, char_of_byte(byte));
                assert(result@ + rest.0 =~= (result@.drop_last()) + (seq![byte_char(byte)] + rest.0));
                offset = offset + 1;
            }
        }
        if !done {
            assert(result@ + Seq::<char>::empty() =~= result@);
        }
        result
    }

    /// Loads `max - i` bytes from `base + i` onwards and discards them.
    fn skip_reads(&mut self, base: u32, max: u32)
        requires
            old(self).wf(),
        ensures
            final(self)@ == old(self)@.skip_reads(base, 0, max),
            final(self).wf(),
    {
        let mut i: u32 = 0;
        while i < max
            invariant
                self.wf(),
                i <= max,
                old(self)@.skip_reads(base, 0, max) == self@.skip_reads(base, i, max),
            decreases max - i,
        {
            let _ = self.read_u8(base.wrapping_add(i));
            i = i + 1;
        }
    }

    /// Stores `data` byte by byte at `base` onwards.
    fn store_bytes(&mut self, base: u32, data: &Vec<u8>)
        requires
            old(self).wf(),
            data@.len() <= u32::MAX,
        ensures
            final(self)@ == old(self)@.store_bytes(base, data@, 0),
            final(self).wf(),
    {
        let mut i: usize = 0;
        while i < data.len()
            invariant
                self.wf(),
                i <= data@.len(),
                data@.len() <= u32::MAX,
                old(self)@.store_bytes(base, data@, 0) == self@.store_bytes(base, data@, i as int),
            decreases data@.len() - i,
        {
            self.write_u8(base.wrapping_add(i as u32), data[i]);
            i = i + 1;
        }
    }

    /// Executes the command just written to the pipe command register.
    fn execute_pipe_command(&mut self)
        requires
            old(self).wf(),
        ensures
            final(self)@ == old(self)@.pipe_command(),
            final(self).wf(),
    {
        let cmd = self.pipe_cmd;
        if cmd == PIPE_CMD_OPEN {
            let len = if self.pipe_size < 256 { self.pipe_size } else { 256 };
            let addr = self.pipe_address;
            let ghost before = self@;
            let name = self.read_string_from_ram(addr, len);
            proof {
                before.lemma_read_cstr_frame(addr, 0, len);
            }
            if name.as_str().unicode_len() == 0 {
                self.pipe_status = PIPE_ERROR_INVAL;
            } else {
                let ghost old_channels = self.pipe_channels@;
                self.pipe_channels.push(name);
                assert(self.pipe_channels@.map_values(|s: String| s@) =~= old_channels.map_values(
                    |s: String| s@,
                ).push(name@));
                assert(self.pipe_channels@.len() == old_channels.len() + 1);
                self.pipe_channel = self.pipe_channels.len() as u32;
                self.pipe_status = 0;
                self.pipe_wakes = PIPE_POLL_OUT;
            }
        } else if cmd == PIPE_CMD_CLOSE {
            let id = self.pipe_channel as usize;
            if id == 0 || id > self.pipe_channels.len() {
                self.pipe_status = PIPE_ERROR_INVAL;
            } else {
                let ghost old_channels = self.pipe_channels@;
                self.pipe_channels.set(id - 1, String::new());
                assert(self.pipe_channels@.map_values(|s: String| s@) =~= old_channels.map_values(
                    |s: String| s@,
                ).update(id - 1, Seq::<char>::empty()));
                self.pipe_status = 0;
                self.pipe_wakes = 0;
            }
        } else if cmd == PIPE_CMD_POLL {
            let id = self.pipe_channel as usize;
            if id == 0 || id > self.pipe_channels.len()
                || self.pipe_channels[id - 1].as_str().unicode_len() == 0 {
                self.pipe_status = PIPE_ERROR_INVAL;
            } else {
                let mut wake = PIPE_POLL_OUT;
                if self.pipe_rx.len() > 0 {
                    wake = wake | PIPE_POLL_IN;
                }
                self.pipe_wakes = wake;
                self.pipe_status = 0;
            }
        } else if cmd == PIPE_CMD_WRITE {
            let id = self.pipe_channel as usize;
            if id == 0 || id > self.pipe_channels.len()
                || self.pipe_channels[id - 1].as_str().unicode_len() == 0 {
                self.pipe_status = PIPE_ERROR_INVAL;
            } else {
                self.pipe_write();
            }
        } else if cmd == PIPE_CMD_READ {
            if self.pipe_rx.len() == 0 {
                self.pipe_status = PIPE_ERROR_AGAIN;
            } else {
                self.pipe_read();
            }
        } else {
            self.pipe_status = PIPE_ERROR_INVAL;
        }
    }

    /// Pipe WRITE on an open channel: the guest buffer is consumed and
    /// ping-style services (`qemud`, `pipe`) queue the reply `"ok\n"`.
    fn pipe_write(&mut self)
        requires
            old(self).wf(),
            old(self)@.pipe_id_open(),
        ensures
            final(self)@ == old(self)@.pipe_write(),
            final(self).wf(),
    {
        let id = self.pipe_channel as usize;
        let len = if self.pipe_size < 4096 { self.pipe_size } else { 4096 };
        let addr = self.pipe_address;
        let ghost before = self@;
        self.skip_reads(addr, len);
        proof {
            before.lemma_skip_reads_frame(addr, 0, len);
        }
        let svc = self.pipe_channels[id - 1].as_str();
        let hit = str_contains(svc, "qemud") || str_contains(svc, "pipe");
        proof {
            reveal_strlit("qemud");
            reveal_strlit("pipe");
            assert("qemud"@ =~= qemud_chars());
            assert("pipe"@ =~= pipe_chars());
        }
        if hit {
            let ghost rx0 = self.pipe_rx@;
            self.pipe_rx.push(111);
            self.pipe_rx.push(107);
            self.pipe_rx.push(10);
            assert(self.pipe_rx@ =~= rx0 + pipe_reply());
            self.pipe_wakes = PIPE_POLL_IN | PIPE_POLL_OUT;
        }
        self.pipe_status = 0;
    }

    /// Pipe READ with queued bytes: moves up to `pipe_size` (at most 4096)
    /// of them into guest memory.
    fn pipe_read(&mut self)
        requires
            old(self).wf(),
            old(self)@.pipe_rx.len() > 0,
        ensures
            final(self)@ == old(self)@.pipe_read(),
            final(self).wf(),
    {
        let want = if self.pipe_size < 4096 { self.pipe_size as usize } else { 4096 };
        let n = if want < self.pipe_rx.len() { want } else { self.pipe_rx.len() };
        let ghost rx0 = self.pipe_rx@;
        let ghost v0 = self@;
        let mut chunk: Vec<u8> = Vec::new();
        let mut rest: Vec<u8> = Vec::new();
        let mut i: usize = 0;
        while i < self.pipe_rx.len()
            invariant
                self@ == v0,
                self.pipe_rx@ == rx0,
                n <= rx0.len(),
                n <= 4096,
                i <= rx0.len(),
                chunk@ == rx0.subrange(0, if i < n { i as int } else { n as int }),
                rest@ == rx0.subrange(n as int, if i < n { n as int } else { i as int }),
            decreases rx0.len() - i,
        {
            if i < n {
                chunk.push(self.pipe_rx[i]);
            } else {
                rest.push(self.pipe_rx[i]);
            }
            i = i + 1;
        }
        self.pipe_rx = rest;
        let ghost v1 = self@;
        assert(v1 =~= (MmuView { pipe_rx: rx0.subrange(n as int, rx0.len() as int), ..v0 }));
        let addr = self.pipe_address;
        self.store_bytes(addr, &chunk);
        self.pipe_size = n as u32;
        self.pipe_status = 0;
        if self.pipe_rx.len() == 0 {
            self.pipe_wakes = PIPE_POLL_OUT;
        }
    }

    /// Appends a logcat entry built from the logger registers.
    pub fn execute_log_write(&mut self)
        requires
            old(self).wf(),
        ensures
            final(self)@ == old(self)@.log_write(),
            final(self).wf(),
    {
        let priority = (self.log_prio & 0xFF) as u8;
        let tag_ptr = self.log_tag_ptr;
        let msg_ptr = self.log_msg_ptr;
        let tag = self.read_string_from_ram(tag_ptr, LOG_TAG_MAX);
        let message = self.read_string_from_ram(msg_ptr, LOG_MSG_MAX);
        let entry = LogEntry { priority, tag, message };
        let ghost e = entry@;
        let ghost old_buf = self.logger_buffer@;
        if self.logger_buffer.len() >= self.logger_max_entries {
            self.logger_buffer.remove(0);
            assert(self.logger_buffer@.map_values(|e: LogEntry| e@) =~= old_buf.map_values(
                |e: LogEntry| e@,
            ).drop_first());
        }
        let ghost mid_buf = self.logger_buffer@;
        self.logger_buffer.push(entry);
        assert(self.logger_buffer@.map_values(|e: LogEntry| e@) =~= mid_buf.map_values(
            |e: LogEntry| e@,
        ).push(e));
    }

    /// Executes the command just written to the ashmem command register.
    fn execute_ashmem_command(&mut self)
        requires
            old(self).wf(),
        ensures
            final(self)@ == old(self)@.ashmem_command(),
            final(self).wf(),
    {
        let cmd = self.ashmem_cmd;
        let size = self.ashmem_size as usize;
        let prot = self.ashmem_prot;
        let ghost regs0 = self.ashmem_regions@;
        if cmd == ASHMEM_CMD_CREATE {
            let id = self.ashmem_regions.len() as u32;
            let data: Vec<u8> = vec![0u8; size];
            proof {
                assert forall|i: int| 0 <= i < size implies #[trigger] data@[i] == 0u8 by {
                    assert(vstd::pervasive::cloned(0u8, data@[i]));
                }
                assert(data@ =~= Seq::new(size as nat, |k: int| 0u8));
            }
            let region = SharedMemoryRegion {
                id,
                size,
                data,
                prot_mask: prot,
                pinned: false,
                mapped_addr: None,
            };
            let ghost rv = region@;
            self.ashmem_regions.push(region);
            assert(self.ashmem_regions@.map_values(|r: SharedMemoryRegion| r@) =~= regs0.map_values(
                |r: SharedMemoryRegion| r@,
            ).push(rv));
            self.ashmem_data_ptr = id;
            self.ashmem_status = 1;
        } else if cmd == ASHMEM_CMD_PIN || cmd == ASHMEM_CMD_UNPIN {
            let region_id = self.ashmem_data_ptr as usize;
            if region_id < self.ashmem_regions.len() {
                let pin = cmd == ASHMEM_CMD_PIN;
                let mut region = self.ashmem_regions.remove(region_id);
                region.pinned = pin;
                let ghost rv = region@;
                self.ashmem_regions.insert(region_id, region);
                assert(self.ashmem_regions@.map_values(|r: SharedMemoryRegion| r@) =~= regs0.map_values(
                    |r: SharedMemoryRegion| r@,
                ).update(region_id as int, rv));
                self.ashmem_pinned = if pin { 1 } else { 0 };
            }
        } else if cmd == ASHMEM_CMD_PURGE {
            let ghost target = self@.ashmem_command().ashmem_regions;
            let ghost v0 = self@;
            let mut i: usize = 0;
            while i < self.ashmem_regions.len()
                invariant
                    i <= self.ashmem_regions@.len(),
                    self.ashmem_regions@.len() == regs0.len(),
                    target.len() == regs0.len(),
                    forall|j: int| 0 <= j < i ==> #[trigger] self.ashmem_regions@[j]@ == target[j],
                    forall|j: int| i <= j < regs0.len() ==> #[trigger] self.ashmem_regions@[j] == regs0[j],
                    forall|j: int| 0 <= j < regs0.len() ==> #[trigger] target[j] == (if regs0[j]@.pinned {
                        regs0[j]@
                    } else {
                        RegionView { data: Seq::empty(), ..regs0[j]@ }
                    }),
                    self@ == (MmuView { ashmem_regions: self.ashmem_regions@.map_values(|r: SharedMemoryRegion| r@), ..v0 }),
                decreases regs0.len() - i,
            {
                let mut region = self.ashmem_regions.remove(i);
                if !region.pinned {
                    region.data = Vec::new();
                }
                self.ashmem_regions.insert(i, region);
                i = i + 1;
            }
            assert(self.ashmem_regions@.map_values(|r: SharedMemoryRegion| r@) =~= target);
        }
    }
}
} // verus!
