use microdragon::bootloader::{
    get_framebuffer_info, get_memory_map_info, get_rsdp_address, LimineFramebuffer,
};
use microdragon::interface::{
    FramebufferInfo, MemoryInfo, MemoryMapInfo, MemoryMapType, ModuleInterface, StackInfo,
};
use microdragon::logging::{
    default_bg_color, default_fg_color, get_bright_color, get_color, init, level_label, rewire,
    split_color, Framebuffer, LogLevel, TerminalOutput,
};
use microdragon::paging::AddressTranslation;

fn fb(address: u64, width: u64, height: u64, bpp: u16) -> LimineFramebuffer {
    LimineFramebuffer {
        address,
        width,
        height,
        pitch: width * 4,
        bpp,
        red_mask_size: 8,
        red_mask_shift: 16,
        green_mask_size: 8,
        green_mask_shift: 8,
        blue_mask_size: 8,
        blue_mask_shift: 0,
    }
}

fn iface_with(framebuffer_info: FramebufferInfo) -> ModuleInterface {
    ModuleInterface {
        stack_info: StackInfo { primary_stack: 0, secondary_stack: 0 },
        rsdp_address: 0xe0000,
        framebuffer_info,
        memory_map_info: MemoryMapInfo {
            memory_map: 0,
            memory_map_count: 0,
            memory_map_type: MemoryMapType::Limine,
        },
        memory_info: MemoryInfo {
            virtual_address_bits: 48,
            physical_address_bits: 52,
            page_table_entry_address_mask: 0x000f_ffff_ffff_f000,
            highest_page_table_level: 4,
        },
    }
}

#[test]
fn rsdp_address_defaults_to_zero() {
    assert_eq!(get_rsdp_address(Some(0xe0000)), 0xe0000);
    assert_eq!(get_rsdp_address(None), 0);
    assert!(iface_with(FramebufferInfo::absent()).has_acpi());
}

#[test]
fn framebuffer_choice() {
    let chosen = get_framebuffer_info(Some(vec![
        fb(0xa000_0000, 800, 600, 32),
        fb(0xb000_0000, 1920, 1080, 24),
        fb(0xc000_0000, 1024, 768, 32),
        fb(0xd000_0000, 1024, 700, 32),
    ]));
    assert_eq!(chosen.address, 0xc000_0000);
    assert_eq!(chosen.width, 1024);
    assert_eq!(chosen.height, 768);
    assert_eq!(chosen.pitch, 4096);
    assert_eq!(chosen.size, 1024 * 768 * 32);
    assert_eq!(chosen.red_mask_shift, 16);
}

#[test]
fn framebuffer_ties_go_to_the_last() {
    let chosen = get_framebuffer_info(Some(vec![fb(0x1000, 640, 480, 32), fb(0x2000, 640, 480, 32)]));
    assert_eq!(chosen.address, 0x2000);
}

#[test]
fn framebuffer_absent_cases() {
    assert_eq!(get_framebuffer_info(None), FramebufferInfo::absent());
    assert_eq!(get_framebuffer_info(Some(vec![fb(0x1000, 640, 480, 16)])), FramebufferInfo::absent());
    assert_eq!(get_framebuffer_info(Some(vec![fb(0, 640, 480, 32)])), FramebufferInfo::absent());
    assert_eq!(FramebufferInfo::default(), FramebufferInfo::absent());
    assert!(!FramebufferInfo::absent().is_present());
}

#[test]
fn memory_map_info_from_response() {
    assert_eq!(
        get_memory_map_info(Some((0x5000, 12))),
        MemoryMapInfo { memory_map: 0x5000, memory_map_count: 12, memory_map_type: MemoryMapType::Limine }
    );
}

#[test]
fn absent_framebuffer_rewire_does_nothing() {
    let iface = iface_with(FramebufferInfo::absent());
    let mut terminal = TerminalOutput::new();
    init(&mut terminal, &iface);
    assert!(terminal.framebuffer().is_none());
    rewire(&mut terminal, AddressTranslation::DirectMap { offset: 0xffff_8000_0000_0000 });
    assert!(terminal.framebuffer().is_none());
    assert_eq!(terminal.columns(), 0);
    assert_eq!(terminal.lines(), 0);
}

#[test]
fn framebuffer_is_rewired_through_the_direct_map() {
    let info = get_framebuffer_info(Some(vec![fb(0xfd00_0000, 1024, 768, 32)]));
    let iface = iface_with(info);
    let mut terminal = TerminalOutput::new();
    init(&mut terminal, &iface);
    let before = terminal.framebuffer().unwrap();
    assert_eq!(before.buffer(), 0xfd00_0000);
    assert_eq!(before.size(), 768 * 4096);
    assert_eq!(terminal.columns(), (1024 - 2) / 9);
    assert_eq!(terminal.lines(), (768 - 2) / 18);
    rewire(&mut terminal, AddressTranslation::DirectMap { offset: 0xffff_8000_0000_0000 });
    assert_eq!(terminal.framebuffer().unwrap().buffer(), 0xffff_8000_fd00_0000);
}

#[test]
fn terminal_is_set_up_once() {
    let mut terminal = TerminalOutput::new();
    terminal.init(&get_framebuffer_info(Some(vec![fb(0x1000, 640, 480, 32)])));
    terminal.init(&get_framebuffer_info(Some(vec![fb(0x9000, 800, 600, 32)])));
    assert_eq!(terminal.framebuffer().unwrap().buffer(), 0x1000);
}

#[test]
fn terminal_refuses_a_framebuffer_too_small_for_its_rows() {
    let mut info = get_framebuffer_info(Some(vec![fb(0x1000, 640, 480, 32)]));
    info.size = 100;
    let mut terminal = TerminalOutput::new();
    terminal.init(&info);
    assert!(terminal.framebuffer().is_none());
}

#[test]
fn colors() {
    assert_eq!(split_color(0xC50F1E), (0xC5, 0x0F, 0x1E));
    assert_eq!(get_color('1'), (0xC5, 0x0F, 0x1E));
    assert_eq!(get_color('7'), (0xCC, 0xCC, 0xCC));
    assert_eq!(get_color('x'), default_bg_color());
    assert_eq!(get_bright_color('4'), (0x3B, 0x79, 0xFF));
    assert_eq!(get_bright_color('9'), default_fg_color());
    assert_eq!(default_bg_color(), (0x0C, 0x0C, 0x0C));
}

#[test]
fn pixel_encoding_and_offsets() {
    let fb = Framebuffer::new(0x1000, 4096 * 2, 16, 8, 0, 1024, 4096);
    assert_eq!(fb.encode_color((0x12, 0x34, 0x56)), 0x123456);
    let bgr = Framebuffer::new(0x1000, 4096 * 2, 0, 8, 16, 1024, 4096);
    assert_eq!(bgr.encode_color((0x12, 0x34, 0x56)), 0x563412);
    assert_eq!(fb.pixel_offset(3, 1), Some(4096 + 12));
    assert_eq!(fb.pixel_offset(0, 2), None);
}

#[test]
fn level_labels() {
    assert_eq!(level_label(LogLevel::Error), "\x1B[91mERROR\x1B[39m");
    assert_eq!(level_label(LogLevel::Info), "\x1B[92m INFO\x1B[39m");
    assert_eq!(level_label(LogLevel::Trace), "\x1B[95mTRACE\x1B[39m");
}
