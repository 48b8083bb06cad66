use std::time::Duration;

use flipchart::lifecycle::FAREWELL_MILLIS;

#[test]
fn the_goodbye_lasts_between_two_and_three_seconds() {
    let farewell = Duration::from_millis(FAREWELL_MILLIS);

    assert!((Duration::from_secs(2)..=Duration::from_secs(3)).contains(&farewell));
}

#[test]
fn el_adios_dura_entre_dos_y_tres_segundos() {
    let adios = Duration::from_millis(FAREWELL_MILLIS);

    assert!((Duration::from_secs(2)..=Duration::from_secs(3)).contains(&adios));
}
