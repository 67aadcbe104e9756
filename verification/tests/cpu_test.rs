use chip8::emu::{Chip8, Chip8Options};

struct Chip8Tester {
    pub v: Chip8,
}

#[allow(dead_code)]
impl Chip8Tester {
    fn new() -> Chip8Tester {
        let chip8rom: [u8; 3584] = [0; 3584];
        Chip8Tester {
            v: Chip8::new(
                chip8rom,
                Chip8Options { saving_increases_reg_i: false, shift_vy_not_vx: false },
            ),
        }
    }
    fn reset(&mut self) {
        self.v.memory = vec![0; 0x1000];
        self.v.reg_i = 0;
        self.v.reg_pc = 0x200;
        self.v.regs_v = vec![0; 16];
    }
    fn instr(&mut self, instruction: u16) {
        self.v.memory[0x200] = (instruction >> 8) as u8;
        self.v.memory[0x200 + 1] = (instruction & 0xFF) as u8;
        self.v.reg_pc = 0x200;
        self.v.cycle().unwrap();
    }
    fn load_multiple(&mut self, instructions: Vec<u16>, location: usize) {
        for i in 0..instructions.len() {
            let offset: usize = i * 2;
            let loc: usize = location + offset;
            self.v.memory[loc] = (instructions[i] >> 8) as u8;
            self.v.memory[loc + 1] = (instructions[i] & 0xFF) as u8;
        }
    }
    fn pc(&self) -> usize {
        self.v.reg_pc
    }
    fn v0(&self) -> u8 {
        self.v.regs_v[0]
    }
    fn v1(&self) -> u8 {
        self.v.regs_v[1]
    }
    fn v2(&self) -> u8 {
        self.v.regs_v[2]
    }
    fn v3(&self) -> u8 {
        self.v.regs_v[3]
    }
    fn v4(&self) -> u8 {
        self.v.regs_v[4]
    }
    fn v5(&self) -> u8 {
        self.v.regs_v[5]
    }
    fn v6(&self) -> u8 {
        self.v.regs_v[6]
    }
    fn v7(&self) -> u8 {
        self.v.regs_v[7]
    }
    fn v8(&self) -> u8 {
        self.v.regs_v[8]
    }
    fn v9(&self) -> u8 {
        self.v.regs_v[9]
    }
    fn va(&self) -> u8 {
        self.v.regs_v[10]
    }
    fn vb(&self) -> u8 {
        self.v.regs_v[11]
    }
    fn vc(&self) -> u8 {
        self.v.regs_v[12]
    }
    fn vd(&self) -> u8 {
        self.v.regs_v[13]
    }
    fn ve(&self) -> u8 {
        self.v.regs_v[14]
    }
    fn vf(&self) -> u8 {
        self.v.regs_v[15]
    }
}

#[test]
fn cpu_test() {
    let mut tr = Chip8Tester::new();

    tr.instr(0x3abb);
    assert_eq!(tr.pc(), 0x202);

    tr.v.regs_v[0xa] = 0xbb;
    tr.instr(0x3abb);
    assert_eq!(tr.pc(), 0x204);

    tr.reset();
    tr.instr(0x4acc);
    assert_eq!(tr.pc(), 0x204);

    tr.reset();
    tr.v.regs_v[0xa] = 0xcc;
    tr.instr(0x4acc);
    assert_eq!(tr.pc(), 0x202);

    tr.reset();
    tr.v.regs_v[0xa] = 0x5;
    tr.v.regs_v[0xb] = 0x5;
    tr.instr(0x5ab0);
    assert_eq!(tr.pc(), 0x204);

    tr.reset();
    tr.v.regs_v[0xa] = 0x5;
    tr.v.regs_v[0xb] = 0x6;
    tr.instr(0x5ab0);
    assert_eq!(tr.pc(), 0x202);

    tr.reset();
    tr.v.reg_i = 0x400;
    for i in 0..0xb {
        tr.v.regs_v[i] = i as u8;
    }
    tr.instr(0xfb55);
    for i in 0..0xb {
        assert_eq!(tr.v.memory[0x400 + i], i as u8);
    }
    assert_eq!(tr.v.memory[0x400 + 0xc], 0);

    tr.reset();
    tr.v.delay_timer = 0xf;
    tr.instr(0xfa07);
    assert_eq!(tr.va(), 0xf);

    tr.reset();
    tr.v.memory[0x200] = 0xfb;
    tr.v.memory[0x201] = 0x0a;
    tr.v.memory[0x202] = 0xfa;
    tr.v.memory[0x203] = 0x07;
    tr.v.cycle().unwrap();
    tr.v.keys[5] = true;
    tr.v.cycle().unwrap();
    assert_eq!(tr.vb(), 5);

    tr.reset();
    tr.instr(0xa999);
    assert_eq!(tr.v.reg_i, 0x999);

    tr.reset();
    tr.v.regs_v[0x0] = 0x2;
    tr.instr(0xb300);
    assert_eq!(tr.pc(), 0x2 + 0x300);

    {
        tr.reset();
        let instructions1: Vec<u16> = vec![0x1500, 0x6E86, 0x00EE];
        let instructions2: Vec<u16> = vec![0x2202, 0x7E11];
        tr.load_multiple(instructions1, 0x200);
        tr.load_multiple(instructions2, 0x500);
        tr.v.cycle().unwrap();
        tr.v.cycle().unwrap();
        tr.v.cycle().unwrap();
        tr.v.cycle().unwrap();
        tr.v.cycle().unwrap();
        tr.v.cycle().unwrap();
        assert_eq!(tr.ve(), 151);
        // The sixth cycle lands on the unrecognized word 0000 at 0x504,
        // which is reported and stepped past.
        assert_eq!(tr.pc(), 0x506);
    }

    tr.reset();
    tr.v.regs_v[0x0] = 0x3E;
    tr.v.regs_v[0x1] = 0x27;
    tr.instr(0x8014);
    assert_eq!(tr.v0(), 101);
    assert_eq!(tr.v1(), 0x27);
    assert_eq!(tr.vf(), 0);

    tr.reset();
    tr.v.regs_v[0x0] = 0x5F;
    tr.v.regs_v[0x1] = 0xD2;
    tr.instr(0x8014);
    assert_eq!(tr.v0(), 49);
    assert_eq!(tr.v1(), 0xD2);
    assert_eq!(tr.vf(), 1);

    tr.reset();
    tr.v.regs_v[0x5] = 0x4D;
    tr.v.regs_v[0xE] = 0x25;
    tr.instr(0x85E5);
    assert_eq!(tr.v5(), 40);
    assert_eq!(tr.ve(), 0x25);
    assert_eq!(tr.vf(), 1);

    tr.reset();
    tr.v.regs_v[0x5] = 0x5E;
    tr.v.regs_v[0xE] = 0x5E;
    tr.instr(0x85E5);
    assert_eq!(tr.v5(), 0);
    assert_eq!(tr.ve(), 0x5E);
    assert_eq!(tr.vf(), 1);

    tr.reset();
    tr.v.regs_v[0x9] = 0x5E;
    tr.v.regs_v[0x5] = 0x9E;
    tr.instr(0x8955);
    assert_eq!(tr.v9(), 192);
    assert_eq!(tr.v5(), 0x9E);
    assert_eq!(tr.vf(), 0);
}
