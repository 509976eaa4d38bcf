// Wire format of the patchify protocol, version 1, as the library reads and
// writes it. Field slots follow declaration order (4, 6, 8, ...).

struct Common {
  api_version: ubyte;
}

enum Status: ubyte { Success = 0, TooLong = 1 }

enum AuthType: ubyte (bit_flags) { NoAuth, Password, Login, Token }

table ResponseBase {
  common: Common;   // slot 4
  status: Status;   // slot 6
}

table NeedAuthResponse {
  auth_type: AuthType;  // slot 4
}

union Request {
  AuthRequest, FetchRequest, FetchAllRequest, NeedAuthRequest,
  PullRequest, StatusRequest, VersionRequest
}

union Response {
  AuthResponse, FetchResponse, FetchAllResponse, NeedAuthResponse,
  PullResponse, StatusResponse, VersionResponse
}

table RootRequest {
  base: RequestBase;   // slot 4
  request: Request;    // tag in slot 6, value in slot 8
}

table RootResponse {
  base: ResponseBase;  // slot 4
  response: Response;  // tag in slot 6, value in slot 8
}

root_type RootResponse;
