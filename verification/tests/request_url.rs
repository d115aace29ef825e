use weather_station::request::request_url;

#[test]
fn request_url_names_place_units_and_key() {
    assert_eq!(
        request_url("London", "GB", "test"),
        "https://api.openweathermap.org/data/2.5/weather?q=London,GB&units=metric&appid=test"
    );
}

#[test]
fn request_url_takes_its_parts_as_they_are() {
    assert_eq!(
        request_url("New York", "us", "k&y"),
        "https://api.openweathermap.org/data/2.5/weather?q=New York,us&units=metric&appid=k&y"
    );
    assert_eq!(
        request_url("", "", ""),
        "https://api.openweathermap.org/data/2.5/weather?q=,&units=metric&appid="
    );
    assert_eq!(
        request_url("K\u{f6}ln", "DE", "0123"),
        "https://api.openweathermap.org/data/2.5/weather?q=K\u{f6}ln,DE&units=metric&appid=0123"
    );
}
