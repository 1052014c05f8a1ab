//! What the web server answers on its home page.
use vstd::prelude::*;
use vstd::string::StringExecFns;

verus! {

/// The methods of an HTTP request that the server handles.
#[derive(Clone, Copy, Debug, PartialEq, Eq, Structural)]
pub enum HttpMethod {
    Get,
    Post,
}

/// The start of the home page, up to the current time.
pub const HOME_OPEN: &'static str = "\n                    <!DOCTYPE html>\n                    <html lang=\"en\">\n                    <head>\n                        <meta charset=\"utf-8\" />\n                        <meta name=\"viewport\" content=\"width=device-width, initial-scale=1\" />\n                        <title>ESP32 Home</title>\n                        <link rel=\"stylesheet\" href=\"/main.css\">\n                    </head>\n                    <body>\n                        <div class=\"page\">\n                            <h1>ESP32 Home</h1>\n                            <p>Welcome to the ESP32 home page!</p>\n                            <p>Current time: ";

/// The end of the home page, after the current time.
pub const HOME_CLOSE: &'static str = "</p>\n                        </div>\n                    </body>\n                    </html>\n                    ";

/// The answer to a request for `/`.
pub enum HomeResponse {
    /// Send the client elsewhere: status, reason and target.
    Redirect { status: u16, reason: &'static str, location: &'static str },
    /// The home page.
    Page(String),
}

/// The answer to a request for `/`: while the device runs its own access point
/// (and so is not set up yet) the settings page; otherwise the home page with the
/// current time.
pub fn home_response(ap_mode: bool, time_text: &str) -> (r: HomeResponse)
    ensures
        ap_mode ==> (r matches HomeResponse::Redirect { status, reason, location } && status == 302
            && reason@ == "Found"@ && location@ == "/config"@),
        !ap_mode ==> (r matches HomeResponse::Page(p) && p@ == HOME_OPEN@ + time_text@ + HOME_CLOSE@),
{
    if ap_mode {
        HomeResponse::Redirect { status: 302, reason: "Found", location: "/config" }
    } else {
        let mut p = HOME_OPEN.to_owned();
        p.append(time_text);
        p.append(HOME_CLOSE);
        HomeResponse::Page(p)
    }
}

} // verus!
