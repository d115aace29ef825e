//! The request to the weather service.

use vstd::prelude::*;
use vstd::string::StringExecFns;

verus! {

/// The address that answers for a city and a country code: the service's
/// endpoint, then the place, metric units and the key. The three parts go in
/// as they are given.
pub open spec fn request_url_of(
    city: Seq<char>,
    country_code: Seq<char>,
    api_key: Seq<char>,
) -> Seq<char> {
    "https://api.openweathermap.org/data/2.5/weather?q="@ + city + ","@ + country_code
        + "&units=metric&appid="@ + api_key
}

/// The address to get for the weather of a city.
pub fn request_url(city: &str, country_code: &str, api_key: &str) -> (url: String)
    ensures
        url@ == request_url_of(city@, country_code@, api_key@),
{
    let mut url: String = String::from_str("https://api.openweathermap.org/data/2.5/weather?q=");
    url.append(city);
    url.append(",");
    url.append(country_code);
    url.append("&units=metric&appid=");
    url.append(api_key);
    assert(url@ =~= request_url_of(city@, country_code@, api_key@));
    url
}

} // verus!
