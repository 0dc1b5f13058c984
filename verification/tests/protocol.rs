use waycast::protocol::{
    handle_request, LauncherItem, Method, Request, RequestHandler, RequestIds,
};

struct TestHandler;

impl RequestHandler for TestHandler {
    fn search(&mut self, _query: &str) -> Result<Vec<LauncherItem>, String> {
        Ok(vec![LauncherItem {
            id: "test".to_string(),
            title: "Test App".to_string(),
            description: Some("Test Description".to_string()),
            icon: "test-icon".to_string(),
        }])
    }

    fn default_list(&mut self) -> Result<Vec<LauncherItem>, String> {
        self.search("")
    }

    fn execute(&mut self, _id: &str) -> Result<(), String> {
        Ok(())
    }
}

#[test]
fn test_request_creation() {
    let mut ids = RequestIds::new();
    let request = Request::new(&mut ids, Method::Search("test".to_string()));
    assert!(request.id > 0);
    assert!(matches!(request.method, Method::Search(_)));
}

#[test]
fn test_handle_request() {
    let mut handler = TestHandler;
    let mut ids = RequestIds::new();
    let request = Request::new(&mut ids, Method::Search("test".to_string()));
    let response = handle_request(&request, &mut handler);

    assert_eq!(response.id, request.id);
    assert!(response.result.is_ok());
}
