use led_gpio::gpio::{GpioFunction, RpiGpio};

#[test]
fn function_codes_are_the_hardware_codes() {
    assert_eq!(GpioFunction::Input.code(), 0b000);
    assert_eq!(GpioFunction::Output.code(), 0b001);
    assert_eq!(GpioFunction::Alt0.code(), 0b100);
    assert_eq!(GpioFunction::Alt1.code(), 0b101);
    assert_eq!(GpioFunction::Alt2.code(), 0b110);
    assert_eq!(GpioFunction::Alt3.code(), 0b111);
    assert_eq!(GpioFunction::Alt4.code(), 0b010);
    assert_eq!(GpioFunction::Alt5.code(), 0b011);
}

#[test]
fn new_controller_is_reset() {
    let g = RpiGpio::new();
    for pin in 0..54u32 {
        assert_eq!(g.get_function(pin), 0);
        assert_eq!(g.read_value(pin), 0);
    }
}

#[test]
fn set_function_reads_back_on_every_pin() {
    let functions = [
        GpioFunction::Input,
        GpioFunction::Output,
        GpioFunction::Alt0,
        GpioFunction::Alt1,
        GpioFunction::Alt2,
        GpioFunction::Alt3,
        GpioFunction::Alt4,
        GpioFunction::Alt5,
    ];
    for pin in 0..54u32 {
        for f in functions {
            let mut g = RpiGpio::new();
            g.set_function(pin, f);
            assert_eq!(g.get_function(pin), f.code());
        }
    }
}

#[test]
fn set_function_leaves_register_mates_alone() {
    // Pins 10..19 share one function-select register; programming pin 17
    // must not disturb the other nine, nor pins of other registers.
    let mut g = RpiGpio::new();
    for pin in 10..20u32 {
        g.set_function(pin, GpioFunction::Alt2);
    }
    g.set_function(9, GpioFunction::Alt5);
    g.set_function(20, GpioFunction::Alt4);
    g.set_function(17, GpioFunction::Output);
    assert_eq!(g.get_function(17), 0b001);
    for pin in 10..20u32 {
        if pin != 17 {
            assert_eq!(g.get_function(pin), 0b110);
        }
    }
    assert_eq!(g.get_function(9), 0b011);
    assert_eq!(g.get_function(20), 0b010);
}

#[test]
fn set_value_reads_back_on_every_pin() {
    for pin in 0..54u32 {
        let mut g = RpiGpio::new();
        g.set_value(pin, 1);
        assert_eq!(g.read_value(pin), 1);
        g.set_value(pin, 0);
        assert_eq!(g.read_value(pin), 0);
    }
}

#[test]
fn set_value_isolates_single_bits() {
    // Pins 31 and 32 sit on the two sides of the level-word boundary.
    let mut g = RpiGpio::new();
    g.set_value(31, 1);
    g.set_value(32, 1);
    g.set_value(17, 1);
    assert_eq!(g.read_value(31), 1);
    assert_eq!(g.read_value(32), 1);
    assert_eq!(g.read_value(17), 1);
    g.set_value(31, 0);
    assert_eq!(g.read_value(31), 0);
    assert_eq!(g.read_value(32), 1);
    assert_eq!(g.read_value(17), 1);
    for pin in 0..54u32 {
        if pin != 31 && pin != 32 && pin != 17 {
            assert_eq!(g.read_value(pin), 0);
        }
    }
}

#[test]
fn set_value_treats_non_one_as_clear() {
    let mut g = RpiGpio::new();
    g.set_value(5, 1);
    g.set_value(5, 7);
    assert_eq!(g.read_value(5), 0);
}

#[test]
fn gpio_init_makes_led_pins_outputs() {
    let mut g = RpiGpio::new();
    g.gpio_init();
    for pin in 0..54u32 {
        let expected = if pin == 2 || pin == 3 || pin == 4 || pin == 17 { 0b001 } else { 0b000 };
        assert_eq!(g.get_function(pin), expected);
        assert_eq!(g.read_value(pin), 0);
    }
}
