use rust_8086::i8086::cpu::CPU;
use rust_8086::i8086::flags::{AF, CF, DF, OF, PF, SF, ZF};
use rust_8086::i8086::op::{Op, OpCallType};
use rust_8086::mem::linear::LinearMemory;
use rust_8086::mem::{read_u16, read_u8, write_u16, write_u8};

fn create_cpu() -> CPU<LinearMemory, LinearMemory> {
    let memory = LinearMemory::new(1024 * 1024);
    let io_map = LinearMemory::new(16);
    CPU::new(memory, io_map)
}

fn load(cpu: &mut CPU<LinearMemory, LinearMemory>, program: &[u8]) {
    for (i, value) in program.iter().enumerate() {
        write_u8(&mut cpu.memory, i, *value);
    }
    cpu.jmp(0, 0);
}

#[test]
fn cpu_init() {
    let mut mem = LinearMemory::new(0xFFFFF);
    write_u8(&mut mem, 0xFFFF0, 0b11101010);
    write_u16(&mut mem, 0xFFFF1, 0x0000);
    write_u16(&mut mem, 0xFFFF3, 0xf000);
    let io_ports = LinearMemory::new(0);
    let mut cpu = CPU::new(mem, io_ports);
    assert_eq!(
        cpu.next_op(),
        Some(Op::Jmp(OpCallType::InterDirect(0x0000, 0xf000))),
    );
}

#[test]
fn op_mov_imm() {
    let mut cpu = create_cpu();
    let input: Vec<u8> = vec![
        // mov ax, 0x8086
        0xb8, 0x86, 0x80,
        // mov bl, al
        0x88, 0xc3,
        // mov cl, ah
        0x88, 0xe1,
    ];
    load(&mut cpu, &input);
    cpu.step();
    assert_eq!(cpu.register.ax, 0x8086);
    cpu.step();
    assert_eq!(cpu.register.bx, 0x0086);
    cpu.step();
    assert_eq!(cpu.register.cx, 0x0080);
}

#[test]
fn op_mov_mem() {
    let mut cpu = create_cpu();
    let input: Vec<u8> = vec![
        // mov [0x5353], 0xabcd
        0xc7, 0x06, 0x53, 0x53, 0xcd, 0xab,
        // mov [0x2000], 0x8086
        0xc7, 0x06, 0x00, 0x20, 0x86, 0x80,
        // movw bx, [0x2000]
        0x8b, 0x1e, 0x00, 0x20,
        // movw [bx], 0x5353
        0xc7, 0x07, 0x53, 0x53,
        // movw bx, [bx]
        0x8b, 0x1f,
    ];
    load(&mut cpu, &input);
    cpu.step();
    assert_eq!(read_u16(&cpu.memory, 0x5353), 0xabcd);
    cpu.step();
    assert_eq!(read_u16(&cpu.memory, 0x2000), 0x8086);
    cpu.step();
    assert_eq!(cpu.register.bx, 0x8086);
    cpu.step();
    assert_eq!(read_u16(&cpu.memory, 0x8086), 0x5353);
    cpu.step();
    assert_eq!(cpu.register.bx, 0x5353);
}

#[test]
fn op_push() {
    let mut cpu = create_cpu();
    let input: Vec<u8> = vec![
        0xc7, 0x06, 0x53, 0x53, 0xcd, 0xab,
        0xc7, 0x06, 0x00, 0x20, 0x86, 0x80,
        0x8b, 0x1e, 0x00, 0x20,
        0xc7, 0x07, 0x53, 0x53,
        0x8b, 0x1f,
    ];
    load(&mut cpu, &input);
}

#[test]
fn op_alu_flags_byte() {
    // mov al, 0xff; add al, 1
    let mut cpu = create_cpu();
    load(&mut cpu, &[0xb0, 0xff, 0x04, 0x01]);
    cpu.step();
    cpu.step();
    assert_eq!(cpu.register.ax & 0xff, 0x00);
    let f = cpu.register.flags;
    assert_ne!(f & ZF, 0);
    assert_ne!(f & CF, 0);
    assert_ne!(f & AF, 0);
    assert_ne!(f & PF, 0);
    assert_eq!(f & SF, 0);
    assert_eq!(f & OF, 0);
}

#[test]
fn op_signed_overflow_word() {
    // mov ax, 0x7fff; add ax, 1
    let mut cpu = create_cpu();
    load(&mut cpu, &[0xb8, 0xff, 0x7f, 0x05, 0x01, 0x00]);
    cpu.step();
    cpu.step();
    assert_eq!(cpu.register.ax, 0x8000);
    let f = cpu.register.flags;
    assert_ne!(f & OF, 0);
    assert_ne!(f & SF, 0);
    assert_eq!(f & CF, 0);
    assert_eq!(f & ZF, 0);
}

#[test]
fn op_cond_jmp() {
    // mov al, 0; cmp al, 0; je +2; mov al, 1; hlt
    let mut cpu = create_cpu();
    load(&mut cpu, &[0xb0, 0x00, 0x3c, 0x00, 0x74, 0x02, 0xb0, 0x01, 0xf4]);
    cpu.run(16);
    assert!(!cpu.running);
    assert_eq!(cpu.register.ax & 0xff, 0);
}

#[test]
fn op_rep_movsb() {
    let mut cpu = create_cpu();
    let text = b"ABCDEFGH";
    for (i, b) in text.iter().enumerate() {
        write_u8(&mut cpu.memory, 0x1000 + i, *b);
    }
    // rep movsb; hlt
    write_u8(&mut cpu.memory, 0, 0xf3);
    write_u8(&mut cpu.memory, 1, 0xa4);
    write_u8(&mut cpu.memory, 2, 0xf4);
    cpu.register.si = 0x1000;
    cpu.register.di = 0x2000;
    cpu.register.cx = 8;
    cpu.jmp(0, 0);
    cpu.run(16);
    assert!(!cpu.running);
    for (i, b) in text.iter().enumerate() {
        assert_eq!(read_u8(&cpu.memory, 0x2000 + i), *b);
    }
    assert_eq!(cpu.register.cx, 0);
    assert_eq!(cpu.register.si, 0x1008);
    assert_eq!(cpu.register.di, 0x2008);
}

#[test]
fn op_push_pop_stack() {
    // mov ax, 0x1234; push ax; pop bx
    let mut cpu = create_cpu();
    load(&mut cpu, &[0xb8, 0x34, 0x12, 0x50, 0x5b]);
    cpu.register.sp = 0x100;
    cpu.register.ss = 0x300;
    cpu.step();
    cpu.step();
    assert_eq!(cpu.register.sp, 0xfe);
    cpu.step();
    assert_eq!(cpu.register.sp, 0x100);
    assert_eq!(cpu.register.bx, 0x1234);
}

#[test]
fn op_byte_aliasing() {
    // mov al, 0x34; mov ah, 0x12
    let mut cpu = create_cpu();
    load(&mut cpu, &[0xb0, 0x34, 0xb4, 0x12]);
    cpu.step();
    cpu.step();
    assert_eq!(cpu.register.ax, 0x1234);
}

#[test]
fn op_divide_fault() {
    // mov ax, 7; mov bl, 0; div bl -- divide fault raises the zero vector
    let mut cpu = create_cpu();
    write_u16(&mut cpu.memory, 0, 0x2000);
    write_u16(&mut cpu.memory, 2, 0x0000);
    let program: &[u8] = &[0xb8, 0x07, 0x00, 0xb3, 0x00, 0xf6, 0xf3];
    for (i, value) in program.iter().enumerate() {
        write_u8(&mut cpu.memory, 0x100 + i, *value);
    }
    cpu.register.sp = 0x200;
    cpu.jmp(0, 0x100);
    cpu.step();
    cpu.step();
    cpu.step();
    assert_eq!(cpu.register.ip, 0x2000);
    assert_eq!(cpu.register.cs, 0x0000);
}

#[test]
fn op_segment_override() {
    // es: mov al, [0x10] with ES = 0x100 reads physical 0x1010
    let mut cpu = create_cpu();
    write_u8(&mut cpu.memory, 0x1010, 0x5a);
    load(&mut cpu, &[0x26, 0xa0, 0x10, 0x00]);
    cpu.register.es = 0x100;
    cpu.step();
    cpu.step();
    assert_eq!(cpu.register.ax & 0xff, 0x5a);
}

#[test]
fn op_shift_rotate() {
    // mov al, 0x81; rol al, 1
    let mut cpu = create_cpu();
    load(&mut cpu, &[0xb0, 0x81, 0xd0, 0xc0]);
    cpu.step();
    cpu.step();
    assert_eq!(cpu.register.ax & 0xff, 0x03);
    assert_ne!(cpu.register.flags & CF, 0);
}

#[test]
fn op_call_ret() {
    // call +1; hlt; ret (the call lands on the ret, which returns to hlt)
    let mut cpu = create_cpu();
    load(&mut cpu, &[0xe8, 0x01, 0x00, 0xf4, 0xc3]);
    cpu.register.sp = 0x100;
    cpu.run(16);
    assert!(!cpu.running);
    assert_eq!(cpu.register.sp, 0x100);
    assert_eq!(cpu.register.ip, 4);
}

#[test]
fn op_rep_consumes_override() {
    // es: rep movsb -- the repeat prefix, like any non-segment instruction,
    // consumes the override, so the copy reads from DS:SI
    let mut cpu = create_cpu();
    write_u8(&mut cpu.memory, 0x500, 0x11);
    write_u8(&mut cpu.memory, 0x1500, 0x22);
    load(&mut cpu, &[0x26, 0xf3, 0xa4, 0xf4]);
    cpu.register.es = 0x100;
    cpu.register.si = 0x500;
    cpu.register.di = 0x800;
    cpu.register.cx = 1;
    cpu.run(8);
    assert_eq!(read_u8(&cpu.memory, 0x1800), 0x11);
}

#[test]
fn op_string_direction() {
    // std; lodsb walks SI down
    let mut cpu = create_cpu();
    write_u8(&mut cpu.memory, 0x500, 0x42);
    load(&mut cpu, &[0xfd, 0xac]);
    cpu.register.si = 0x500;
    cpu.step();
    assert_ne!(cpu.register.flags & DF, 0);
    cpu.step();
    assert_eq!(cpu.register.ax & 0xff, 0x42);
    assert_eq!(cpu.register.si, 0x4ff);
}

#[test]
fn op_decimal_adjust() {
    // mov al, 0x45; add al, 0x38; daa -- packed decimal 45 + 38 = 83
    let mut cpu = create_cpu();
    load(&mut cpu, &[0xb0, 0x45, 0x04, 0x38, 0x27]);
    cpu.step();
    cpu.step();
    cpu.step();
    assert_eq!(cpu.register.ax & 0xff, 0x83);
    assert_eq!(cpu.register.flags & CF, 0);
}

#[test]
fn op_ascii_adjust_multiply() {
    // mov al, 63; aam -- splits into AH = 6, AL = 3
    let mut cpu = create_cpu();
    load(&mut cpu, &[0xb0, 0x3f, 0xd4, 0x0a]);
    cpu.step();
    cpu.step();
    assert_eq!(cpu.register.ax, 0x0603);
}

#[test]
fn op_xlat() {
    // mov al, 2; xlat with BX at a table base
    let mut cpu = create_cpu();
    write_u8(&mut cpu.memory, 0x702, 0x99);
    load(&mut cpu, &[0xb0, 0x02, 0xd7]);
    cpu.register.bx = 0x700;
    cpu.step();
    cpu.step();
    assert_eq!(cpu.register.ax & 0xff, 0x99);
}

#[test]
fn op_int_iret() {
    // int 0x20 enters the handler named by the vector table; iret returns
    let mut cpu = create_cpu();
    write_u16(&mut cpu.memory, 0x20 * 4, 0x1000);
    write_u16(&mut cpu.memory, 0x20 * 4 + 2, 0x0000);
    write_u8(&mut cpu.memory, 0x1000, 0xcf);
    load(&mut cpu, &[0xcd, 0x20, 0xf4]);
    cpu.register.sp = 0x400;
    cpu.step();
    assert_eq!(cpu.register.ip, 0x1000);
    assert_eq!(cpu.register.sp, 0x400 - 6);
    cpu.step();
    assert_eq!(cpu.register.ip, 2);
    assert_eq!(cpu.register.sp, 0x400);
    cpu.step();
    assert!(!cpu.running);
}
