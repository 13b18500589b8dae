use aethertune::launch::{boot_speed, skip_menu, BootSpeed};

fn args(list: &[&str]) -> Vec<String> {
    list.iter().map(|a| a.to_string()).collect()
}

#[test]
fn menu_is_shown_unless_told_otherwise() {
    assert!(!skip_menu(&args(&[])));
    assert!(!skip_menu(&args(&["radio"])));
    assert!(!skip_menu(&args(&["radio", "--skip-menus", "-S", "s", "--skip"])));
    assert!(skip_menu(&args(&["radio", "--skip-menu"])));
    assert!(skip_menu(&args(&["radio", "x", "-s"])));
}

#[test]
fn boot_speed_by_name() {
    assert_eq!(boot_speed(&args(&["radio", "--boot-speed=fast"])), BootSpeed::Fast);
    assert_eq!(boot_speed(&args(&["radio", "--boot-speed=normal"])), BootSpeed::Normal);
    assert_eq!(boot_speed(&args(&["radio", "--boot-speed=slow"])), BootSpeed::Slow);
    assert_eq!(boot_speed(&args(&["radio", "--boot-speed=off"])), BootSpeed::Off);
}

#[test]
fn boot_speed_is_normal_by_default() {
    assert_eq!(boot_speed(&args(&[])), BootSpeed::Normal);
    assert_eq!(boot_speed(&args(&["radio", "fast"])), BootSpeed::Normal);
    assert_eq!(boot_speed(&args(&["--boot-speed=FAST"])), BootSpeed::Normal);
    assert_eq!(boot_speed(&args(&["--boot-speed="])), BootSpeed::Normal);
    assert_eq!(boot_speed(&args(&["--boot-speed", "fast"])), BootSpeed::Normal);
}

#[test]
fn only_the_first_argument_about_speed_counts() {
    assert_eq!(boot_speed(&args(&["--boot-speed=slow", "--boot-speed=fast"])), BootSpeed::Slow);
    assert_eq!(boot_speed(&args(&["--boot-speedy", "--boot-speed=fast"])), BootSpeed::Normal);
}
